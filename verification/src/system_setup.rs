//! The system setup, its cleanup and the gadget configuration: the
//! decisions of each, taken one answer at a time while the caller talks to
//! the system.

use vstd::prelude::*;
use crate::setup::{BoardModel, SetupError};
use crate::text;

verus! {

/// The HID permissions are fixed only on a configured gadget; otherwise the
/// caller is sent to `fix-connection` first.
pub fn permissions_fix_allowed(gadget_configured: bool) -> (r: Result<(), SetupError>)
    ensures
        gadget_configured <==> r is Ok,
        r matches Err(e) ==> e matches SetupError::Unknown(m)
            && m@ == "USB Gadget is not configured. Please run 'fix-connection' first."@,
{
    if gadget_configured {
        Ok(())
    } else {
        Err(SetupError::Unknown(text::owned("USB Gadget is not configured. Please run 'fix-connection' first.")))
    }
}

/// A copy of a board model.
pub fn copy_board(b: &BoardModel) -> (r: BoardModel)
    ensures
        r == *b,
{
    match b {
        BoardModel::OrangePiZero2W => BoardModel::OrangePiZero2W,
        BoardModel::RaspberryPiZero => BoardModel::RaspberryPiZero,
        BoardModel::RaspberryPiZero2W => BoardModel::RaspberryPiZero2W,
        BoardModel::Unknown(n) => BoardModel::Unknown(n.clone()),
    }
}

/// The message of a setup or cleanup run without root privileges.
pub open spec fn needs_root_text() -> Seq<char> {
    "This command requires root privileges. Please run with sudo."@
}

/// Where a system setup stands.
#[derive(Debug, Clone, Copy, PartialEq, Eq, Structural)]
pub enum SystemSetupPhase {
    Start,
    AwaitBoard,
    AwaitBootCheck,
    AwaitBootConfig,
    AwaitServiceCheck,
    AwaitCreateGadgetService,
    AwaitEnableGadgetService,
    AwaitApplicationFiles,
    AwaitCreateWebService,
    AwaitEnableWebService,
    AwaitStartServices,
    Finished,
}

/// What the caller reports to a system setup.
#[derive(Debug)]
pub enum SystemSetupEvent {
    /// The setup begins; whether the program runs as root.
    Begin { is_root: bool },
    BoardDetected(BoardModel),
    /// Whether the boot configuration is already in place.
    BootConfigured(bool),
    /// Whether the gadget service is already enabled.
    ServiceEnabled(bool),
    /// The last action succeeded.
    Done,
    /// The services were tried; a failure to start them is no failure of the setup.
    StartAttempted,
    Failed(SetupError),
}

/// What a system setup asks of the caller.
#[derive(Debug)]
pub enum SystemSetupAction {
    DetectBoard,
    CheckBootConfigured(BoardModel),
    ConfigureBoot(BoardModel),
    CheckServiceEnabled,
    CreateGadgetService,
    EnableGadgetService,
    SetupApplicationFiles,
    CreateWebService,
    EnableWebService,
    /// Start both services now, for testing without a reboot.
    TryStartServices,
    /// The setup is complete.
    Finish,
    Fail(SetupError),
}

/// A system setup in progress.
#[derive(Debug)]
pub struct SystemSetup {
    /// Redo the boot configuration and the gadget service even where in place.
    pub force: bool,
    pub phase: SystemSetupPhase,
    pub board: Option<BoardModel>,
}

/// Whether a system setup can take `e` where it stands.
pub open spec fn system_setup_accepts(p: SystemSetupPhase, e: SystemSetupEvent) -> bool {
    match e {
        SystemSetupEvent::Begin { .. } => p == SystemSetupPhase::Start,
        SystemSetupEvent::BoardDetected(_) => p == SystemSetupPhase::AwaitBoard,
        SystemSetupEvent::BootConfigured(_) => p == SystemSetupPhase::AwaitBootCheck,
        SystemSetupEvent::ServiceEnabled(_) => p == SystemSetupPhase::AwaitServiceCheck,
        SystemSetupEvent::StartAttempted => p == SystemSetupPhase::AwaitStartServices,
        SystemSetupEvent::Done => p == SystemSetupPhase::AwaitBootConfig || p == SystemSetupPhase::AwaitCreateGadgetService
            || p == SystemSetupPhase::AwaitEnableGadgetService || p == SystemSetupPhase::AwaitApplicationFiles
            || p == SystemSetupPhase::AwaitCreateWebService || p == SystemSetupPhase::AwaitEnableWebService,
        SystemSetupEvent::Failed(_) => p != SystemSetupPhase::Start && p != SystemSetupPhase::Finished
            && p != SystemSetupPhase::AwaitStartServices,
    }
}

/// The step after the boot configuration: the gadget service is created
/// when forced, else it is first asked whether it is enabled.
pub open spec fn service_step(force: bool, f: SystemSetupPhase, a: SystemSetupAction) -> bool {
    if force {
        f == SystemSetupPhase::AwaitCreateGadgetService && a is CreateGadgetService
    } else {
        f == SystemSetupPhase::AwaitServiceCheck && a is CheckServiceEnabled
    }
}

/// One step of a system setup, from phase `p` on event `e` to phase `f`,
/// asking for `a`. Without root privileges the setup fails at once. The
/// board is detected; unless forced, a boot configuration already in place
/// and an enabled gadget service are kept; the gadget service is created and
/// enabled, the application files set up, the web service created and
/// enabled, and the services tried; a failure to start them ends the setup
/// all the same.
pub open spec fn system_setup_step(force: bool, board: Option<BoardModel>, p: SystemSetupPhase, e: SystemSetupEvent,
    f: SystemSetupPhase, a: SystemSetupAction) -> bool {
    match e {
        SystemSetupEvent::Failed(err) => f == SystemSetupPhase::Finished && a == SystemSetupAction::Fail(err),
        SystemSetupEvent::Begin { is_root } => if !is_root {
            f == SystemSetupPhase::Finished && (a matches SystemSetupAction::Fail(SetupError::PermissionDenied(m))
                && m@ == needs_root_text())
        } else {
            f == SystemSetupPhase::AwaitBoard && a is DetectBoard
        },
        SystemSetupEvent::BoardDetected(b) => if force {
            f == SystemSetupPhase::AwaitBootConfig && a == SystemSetupAction::ConfigureBoot(b)
        } else {
            f == SystemSetupPhase::AwaitBootCheck && a == SystemSetupAction::CheckBootConfigured(b)
        },
        SystemSetupEvent::BootConfigured(configured) => if configured {
            service_step(force, f, a)
        } else {
            f == SystemSetupPhase::AwaitBootConfig && a == SystemSetupAction::ConfigureBoot(board.unwrap())
        },
        SystemSetupEvent::ServiceEnabled(enabled) => if enabled {
            f == SystemSetupPhase::AwaitApplicationFiles && a is SetupApplicationFiles
        } else {
            f == SystemSetupPhase::AwaitCreateGadgetService && a is CreateGadgetService
        },
        SystemSetupEvent::StartAttempted => f == SystemSetupPhase::Finished && a is Finish,
        SystemSetupEvent::Done => match p {
            SystemSetupPhase::AwaitBootConfig => service_step(force, f, a),
            SystemSetupPhase::AwaitCreateGadgetService => f == SystemSetupPhase::AwaitEnableGadgetService
                && a is EnableGadgetService,
            SystemSetupPhase::AwaitEnableGadgetService => f == SystemSetupPhase::AwaitApplicationFiles
                && a is SetupApplicationFiles,
            SystemSetupPhase::AwaitApplicationFiles => f == SystemSetupPhase::AwaitCreateWebService
                && a is CreateWebService,
            SystemSetupPhase::AwaitCreateWebService => f == SystemSetupPhase::AwaitEnableWebService
                && a is EnableWebService,
            _ => f == SystemSetupPhase::AwaitStartServices && a is TryStartServices,
        },
    }
}

impl SystemSetup {
    /// Past the board detection the setup knows the board.
    pub open spec fn wf(&self) -> bool {
        (self.phase == SystemSetupPhase::AwaitBootCheck) ==> self.board is Some
    }

    /// A setup about to start.
    pub fn new(force: bool) -> (s: Self)
        ensures
            s.wf(),
            s.force == force,
            s.phase == SystemSetupPhase::Start,
            s.board is None,
    {
        SystemSetup { force, phase: SystemSetupPhase::Start, board: None }
    }

    fn after_boot(&mut self) -> (a: SystemSetupAction)
        ensures
            final(self).force == old(self).force,
            final(self).board == old(self).board,
            service_step(old(self).force, final(self).phase, a),
    {
        if self.force {
            self.phase = SystemSetupPhase::AwaitCreateGadgetService;
            SystemSetupAction::CreateGadgetService
        } else {
            self.phase = SystemSetupPhase::AwaitServiceCheck;
            SystemSetupAction::CheckServiceEnabled
        }
    }

    /// Takes the caller's answer and says what to do next; see `system_setup_step`.
    pub fn advance(&mut self, event: SystemSetupEvent) -> (a: SystemSetupAction)
        requires
            old(self).wf(),
            system_setup_accepts(old(self).phase, event),
        ensures
            final(self).wf(),
            final(self).force == old(self).force,
            system_setup_step(old(self).force, old(self).board, old(self).phase, event, final(self).phase, a),
    {
        match event {
            SystemSetupEvent::Failed(err) => {
                self.phase = SystemSetupPhase::Finished;
                SystemSetupAction::Fail(err)
            },
            SystemSetupEvent::Begin { is_root } => {
                if !is_root {
                    self.phase = SystemSetupPhase::Finished;
                    SystemSetupAction::Fail(SetupError::PermissionDenied(
                        text::owned("This command requires root privileges. Please run with sudo."),
                    ))
                } else {
                    self.phase = SystemSetupPhase::AwaitBoard;
                    SystemSetupAction::DetectBoard
                }
            },
            SystemSetupEvent::BoardDetected(b) => {
                self.board = Some(copy_board(&b));
                if self.force {
                    self.phase = SystemSetupPhase::AwaitBootConfig;
                    SystemSetupAction::ConfigureBoot(b)
                } else {
                    self.phase = SystemSetupPhase::AwaitBootCheck;
                    SystemSetupAction::CheckBootConfigured(b)
                }
            },
            SystemSetupEvent::BootConfigured(configured) => {
                if configured {
                    self.after_boot()
                } else {
                    self.phase = SystemSetupPhase::AwaitBootConfig;
                    let b = match &self.board {
                        Some(b) => copy_board(b),
                        None => BoardModel::OrangePiZero2W,
                    };
                    SystemSetupAction::ConfigureBoot(b)
                }
            },
            SystemSetupEvent::ServiceEnabled(enabled) => {
                if enabled {
                    self.phase = SystemSetupPhase::AwaitApplicationFiles;
                    SystemSetupAction::SetupApplicationFiles
                } else {
                    self.phase = SystemSetupPhase::AwaitCreateGadgetService;
                    SystemSetupAction::CreateGadgetService
                }
            },
            SystemSetupEvent::StartAttempted => {
                self.phase = SystemSetupPhase::Finished;
                SystemSetupAction::Finish
            },
            SystemSetupEvent::Done => {
                match self.phase {
                    SystemSetupPhase::AwaitBootConfig => self.after_boot(),
                    SystemSetupPhase::AwaitCreateGadgetService => {
                        self.phase = SystemSetupPhase::AwaitEnableGadgetService;
                        SystemSetupAction::EnableGadgetService
                    },
                    SystemSetupPhase::AwaitEnableGadgetService => {
                        self.phase = SystemSetupPhase::AwaitApplicationFiles;
                        SystemSetupAction::SetupApplicationFiles
                    },
                    SystemSetupPhase::AwaitApplicationFiles => {
                        self.phase = SystemSetupPhase::AwaitCreateWebService;
                        SystemSetupAction::CreateWebService
                    },
                    SystemSetupPhase::AwaitCreateWebService => {
                        self.phase = SystemSetupPhase::AwaitEnableWebService;
                        SystemSetupAction::EnableWebService
                    },
                    _ => {
                        self.phase = SystemSetupPhase::AwaitStartServices;
                        SystemSetupAction::TryStartServices
                    },
                }
            },
        }
    }
}

/// Where a system cleanup stands. Without root privileges it fails; else
/// the services are disabled and removed, the board detected, its boot
/// configuration removed and the gadget directories removed, in that order;
/// any failure ends it.
#[derive(Debug, Clone, Copy, PartialEq, Eq, Structural)]
pub enum CleanupPhase {
    Start,
    AwaitRemoveServices,
    AwaitBoard,
    AwaitRemoveBootConfig,
    AwaitGadgetCleanup,
    Finished,
}

/// What the caller reports to a cleanup.
#[derive(Debug)]
pub enum CleanupEvent {
    Begin { is_root: bool },
    BoardDetected(BoardModel),
    Done,
    Failed(SetupError),
}

/// What a cleanup asks of the caller.
#[derive(Debug)]
pub enum CleanupAction {
    DisableAndRemoveServices,
    DetectBoard,
    RemoveBootConfiguration(BoardModel),
    CleanupGadget,
    Finish,
    Fail(SetupError),
}

/// Whether a cleanup can take `e` where it stands.
pub open spec fn cleanup_accepts(p: CleanupPhase, e: CleanupEvent) -> bool {
    match e {
        CleanupEvent::Begin { .. } => p == CleanupPhase::Start,
        CleanupEvent::BoardDetected(_) => p == CleanupPhase::AwaitBoard,
        CleanupEvent::Done => p == CleanupPhase::AwaitRemoveServices || p == CleanupPhase::AwaitRemoveBootConfig
            || p == CleanupPhase::AwaitGadgetCleanup,
        CleanupEvent::Failed(_) => p != CleanupPhase::Start && p != CleanupPhase::Finished,
    }
}

/// One step of a cleanup, from `p` on `e` to `f`, asking for `a`.
pub open spec fn cleanup_step(p: CleanupPhase, e: CleanupEvent, f: CleanupPhase, a: CleanupAction) -> bool {
    match e {
        CleanupEvent::Failed(err) => f == CleanupPhase::Finished && a == CleanupAction::Fail(err),
        CleanupEvent::Begin { is_root } => if !is_root {
            f == CleanupPhase::Finished && (a matches CleanupAction::Fail(SetupError::PermissionDenied(m))
                && m@ == needs_root_text())
        } else {
            f == CleanupPhase::AwaitRemoveServices && a is DisableAndRemoveServices
        },
        CleanupEvent::BoardDetected(b) => f == CleanupPhase::AwaitRemoveBootConfig
            && a == CleanupAction::RemoveBootConfiguration(b),
        CleanupEvent::Done => match p {
            CleanupPhase::AwaitRemoveServices => f == CleanupPhase::AwaitBoard && a is DetectBoard,
            CleanupPhase::AwaitRemoveBootConfig => f == CleanupPhase::AwaitGadgetCleanup && a is CleanupGadget,
            _ => f == CleanupPhase::Finished && a is Finish,
        },
    }
}

/// Takes the caller's answer to a cleanup and says what to do next; see
/// `cleanup_step`.
pub fn cleanup_advance(phase: &mut CleanupPhase, event: CleanupEvent) -> (a: CleanupAction)
    requires
        cleanup_accepts(*old(phase), event),
    ensures
        cleanup_step(*old(phase), event, *final(phase), a),
{
    match event {
        CleanupEvent::Failed(err) => {
            *phase = CleanupPhase::Finished;
            CleanupAction::Fail(err)
        },
        CleanupEvent::Begin { is_root } => {
            if !is_root {
                *phase = CleanupPhase::Finished;
                CleanupAction::Fail(SetupError::PermissionDenied(
                    text::owned("This command requires root privileges. Please run with sudo."),
                ))
            } else {
                *phase = CleanupPhase::AwaitRemoveServices;
                CleanupAction::DisableAndRemoveServices
            }
        },
        CleanupEvent::BoardDetected(b) => {
            *phase = CleanupPhase::AwaitRemoveBootConfig;
            CleanupAction::RemoveBootConfiguration(b)
        },
        CleanupEvent::Done => {
            match *phase {
                CleanupPhase::AwaitRemoveServices => {
                    *phase = CleanupPhase::AwaitBoard;
                    CleanupAction::DetectBoard
                },
                CleanupPhase::AwaitRemoveBootConfig => {
                    *phase = CleanupPhase::AwaitGadgetCleanup;
                    CleanupAction::CleanupGadget
                },
                _ => {
                    *phase = CleanupPhase::Finished;
                    CleanupAction::Finish
                },
            }
        },
    }
}

/// What configuring the gadget does: without root privileges it is refused;
/// a gadget already configured is left as it is; else it is configured.
#[derive(Debug, Clone, PartialEq, Eq)]
pub enum GadgetConfigurationPlan {
    Refuse(String),
    AlreadyConfigured,
    Configure,
}

/// The plan of a gadget configuration, from whether the program runs as
/// root and (when it does) whether the gadget is already configured.
pub fn gadget_configuration_plan(is_root: bool, already_configured: bool) -> (r: GadgetConfigurationPlan)
    ensures
        !is_root ==> (r matches GadgetConfigurationPlan::Refuse(m)
            && m@ == "USB Gadget configuration requires root privileges."@),
        is_root && already_configured ==> r == GadgetConfigurationPlan::AlreadyConfigured,
        is_root && !already_configured ==> r == GadgetConfigurationPlan::Configure,
{
    if !is_root {
        GadgetConfigurationPlan::Refuse(text::owned("USB Gadget configuration requires root privileges."))
    } else if already_configured {
        GadgetConfigurationPlan::AlreadyConfigured
    } else {
        GadgetConfigurationPlan::Configure
    }
}

} // verus!
