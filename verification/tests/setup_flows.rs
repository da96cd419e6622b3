use splatoon3_ghost_drawer::gadget_setup::{GadgetSetup, GadgetSetupAction, GadgetSetupEvent, SetupPhase, SetupResult};
use splatoon3_ghost_drawer::hardware::{Board, BoardModel, HardwareError, KernelModule, UsbGadget, UsbGadgetState};
use splatoon3_ghost_drawer::setup::{BoardModel as SetupBoard, SetupError};
use splatoon3_ghost_drawer::system_setup::{
    cleanup_advance, gadget_configuration_plan, CleanupAction, CleanupEvent, CleanupPhase,
    GadgetConfigurationPlan, SystemSetup, SystemSetupAction, SystemSetupEvent,
};

fn board_with(modules_loaded: [bool; 2], otg: bool) -> Board {
    let mut b = Board::new(BoardModel::RaspberryPiZero2W).with_usb_otg_status(otg);
    b.kernel_modules[0].loaded = modules_loaded[0];
    b.kernel_modules[1].loaded = modules_loaded[1];
    b
}

#[test]
fn gadget_setup_full_run_without_force() {
    let mut s = GadgetSetup::new(false);
    assert!(matches!(s.advance(GadgetSetupEvent::Begin), GadgetSetupAction::DetectBoard));
    let b = board_with([false, false], false);
    match s.advance(GadgetSetupEvent::BoardDetected(b.clone())) {
        GadgetSetupAction::CheckKernelModules(x) => assert_eq!(x, b),
        other => panic!("unexpected {:?}", other),
    }
    match s.advance(GadgetSetupEvent::ModulesChecked(b.clone())) {
        GadgetSetupAction::LoadKernelModule(m) => assert_eq!(m, "dwc2"),
        other => panic!("unexpected {:?}", other),
    }
    match s.advance(GadgetSetupEvent::Done) {
        GadgetSetupAction::LoadKernelModule(m) => assert_eq!(m, "libcomposite"),
        other => panic!("unexpected {:?}", other),
    }
    // OTG not available: the boot settings are updated
    assert!(matches!(s.advance(GadgetSetupEvent::Done), GadgetSetupAction::ConfigureBootSettings));
    match s.advance(GadgetSetupEvent::Done) {
        GadgetSetupAction::GetGadgetState(id) => assert_eq!(id, "nintendo_controller"),
        other => panic!("unexpected {:?}", other),
    }
    assert!(matches!(s.advance(GadgetSetupEvent::GadgetState(None)), GadgetSetupAction::CreateGadget));
    assert!(matches!(s.advance(GadgetSetupEvent::Done), GadgetSetupAction::ConfigureGadget));
    assert!(matches!(s.advance(GadgetSetupEvent::Done), GadgetSetupAction::ActivateGadget));
    assert!(matches!(s.advance(GadgetSetupEvent::Done), GadgetSetupAction::CreateService));
    assert!(matches!(s.advance(GadgetSetupEvent::Done), GadgetSetupAction::EnableService));
    assert!(matches!(s.advance(GadgetSetupEvent::Done), GadgetSetupAction::ReloadDaemon));
    match s.advance(GadgetSetupEvent::Done) {
        GadgetSetupAction::Finish(r) => {
            assert!(r.gadget_created && r.service_installed && r.reboot_required);
            assert_eq!(r.warnings, vec!["USB OTGを有効にするには再起動が必要です".to_string()]);
            assert_eq!(r.board_model, BoardModel::RaspberryPiZero2W);
        }
        other => panic!("unexpected {:?}", other),
    }
    assert_eq!(s.phase, SetupPhase::Finished);
}

#[test]
fn gadget_setup_keeps_an_active_gadget_unless_forced() {
    let active = UsbGadget::nintendo_controller().with_state(UsbGadgetState::Active);
    let mut s = GadgetSetup::new(false);
    s.advance(GadgetSetupEvent::Begin);
    let b = board_with([true, true], true);
    s.advance(GadgetSetupEvent::BoardDetected(b.clone()));
    assert!(matches!(s.advance(GadgetSetupEvent::ModulesChecked(b.clone())), GadgetSetupAction::GetGadgetState(_)));
    match s.advance(GadgetSetupEvent::GadgetState(Some(active.clone()))) {
        GadgetSetupAction::Finish(r) => {
            assert!(!r.gadget_created && !r.service_installed && !r.reboot_required);
            assert_eq!(r.warnings, vec!["USB Gadgetは既に設定されています".to_string()]);
        }
        other => panic!("unexpected {:?}", other),
    }

    let mut f = GadgetSetup::new(true);
    f.advance(GadgetSetupEvent::Begin);
    f.advance(GadgetSetupEvent::BoardDetected(b.clone()));
    // forced: the boot settings are rewritten even with OTG available
    assert!(matches!(f.advance(GadgetSetupEvent::ModulesChecked(b)), GadgetSetupAction::ConfigureBootSettings));
    f.advance(GadgetSetupEvent::Done);
    assert!(matches!(f.advance(GadgetSetupEvent::GadgetState(Some(active))), GadgetSetupAction::DeactivateGadget));
    for _ in 0..6 {
        f.advance(GadgetSetupEvent::Done);
    }
    assert!(matches!(f.advance(GadgetSetupEvent::Done), GadgetSetupAction::StartService));
    match f.advance(GadgetSetupEvent::Done) {
        GadgetSetupAction::Finish(r) => assert!(r.gadget_created && !r.reboot_required && r.warnings.is_empty()),
        other => panic!("unexpected {:?}", other),
    }
}

#[test]
fn gadget_setup_refuses_unknown_board_and_stops_on_failure() {
    let mut s = GadgetSetup::new(false);
    s.advance(GadgetSetupEvent::Begin);
    match s.advance(GadgetSetupEvent::BoardDetected(Board::new(BoardModel::Unknown))) {
        GadgetSetupAction::Fail(HardwareError::BoardNotSupported(name)) => assert_eq!(name, "Unknown Board"),
        other => panic!("unexpected {:?}", other),
    }
    let mut s = GadgetSetup::new(false);
    s.advance(GadgetSetupEvent::Begin);
    match s.advance(GadgetSetupEvent::Failed(HardwareError::BoardDetectionFailed)) {
        GadgetSetupAction::Fail(HardwareError::BoardDetectionFailed) => {}
        other => panic!("unexpected {:?}", other),
    }
    assert_eq!(s.phase, SetupPhase::Finished);
}

#[test]
fn setup_result_summary_lines() {
    let r = SetupResult {
        board_model: BoardModel::OrangePiZero2W,
        gadget_created: true,
        service_installed: false,
        reboot_required: true,
        warnings: vec!["a".to_string(), "b".to_string()],
    };
    assert_eq!(
        r.summary(),
        "ボードモデル: Orange Pi Zero 2W\nUSB Gadget作成: 成功\nサービス設定: スキップ\n⚠️  再起動が必要です\n⚠️  a\n⚠️  b"
    );
    let _ = KernelModule::dwc2();
}

#[test]
fn system_setup_skips_what_is_in_place() {
    let mut s = SystemSetup::new(false);
    match s.advance(SystemSetupEvent::Begin { is_root: false }) {
        SystemSetupAction::Fail(SetupError::PermissionDenied(m)) => {
            assert_eq!(m, "This command requires root privileges. Please run with sudo.")
        }
        other => panic!("unexpected {:?}", other),
    }
    let mut s = SystemSetup::new(false);
    assert!(matches!(s.advance(SystemSetupEvent::Begin { is_root: true }), SystemSetupAction::DetectBoard));
    assert!(matches!(
        s.advance(SystemSetupEvent::BoardDetected(SetupBoard::RaspberryPiZero2W)),
        SystemSetupAction::CheckBootConfigured(SetupBoard::RaspberryPiZero2W)
    ));
    assert!(matches!(s.advance(SystemSetupEvent::BootConfigured(true)), SystemSetupAction::CheckServiceEnabled));
    assert!(matches!(s.advance(SystemSetupEvent::ServiceEnabled(true)), SystemSetupAction::SetupApplicationFiles));
    assert!(matches!(s.advance(SystemSetupEvent::Done), SystemSetupAction::CreateWebService));
    assert!(matches!(s.advance(SystemSetupEvent::Done), SystemSetupAction::EnableWebService));
    assert!(matches!(s.advance(SystemSetupEvent::Done), SystemSetupAction::TryStartServices));
    assert!(matches!(s.advance(SystemSetupEvent::StartAttempted), SystemSetupAction::Finish));
}

#[test]
fn forced_system_setup_redoes_everything() {
    let mut s = SystemSetup::new(true);
    s.advance(SystemSetupEvent::Begin { is_root: true });
    assert!(matches!(
        s.advance(SystemSetupEvent::BoardDetected(SetupBoard::OrangePiZero2W)),
        SystemSetupAction::ConfigureBoot(SetupBoard::OrangePiZero2W)
    ));
    assert!(matches!(s.advance(SystemSetupEvent::Done), SystemSetupAction::CreateGadgetService));
    assert!(matches!(s.advance(SystemSetupEvent::Done), SystemSetupAction::EnableGadgetService));
    assert!(matches!(s.advance(SystemSetupEvent::Done), SystemSetupAction::SetupApplicationFiles));
    let mut s = SystemSetup::new(false);
    s.advance(SystemSetupEvent::Begin { is_root: true });
    s.advance(SystemSetupEvent::BoardDetected(SetupBoard::Unknown("x".to_string())));
    match s.advance(SystemSetupEvent::BootConfigured(false)) {
        SystemSetupAction::ConfigureBoot(SetupBoard::Unknown(n)) => assert_eq!(n, "x"),
        other => panic!("unexpected {:?}", other),
    }
}

#[test]
fn cleanup_order_and_configuration_plan() {
    let mut p = CleanupPhase::Start;
    assert!(matches!(cleanup_advance(&mut p, CleanupEvent::Begin { is_root: true }), CleanupAction::DisableAndRemoveServices));
    assert!(matches!(cleanup_advance(&mut p, CleanupEvent::Done), CleanupAction::DetectBoard));
    assert!(matches!(
        cleanup_advance(&mut p, CleanupEvent::BoardDetected(SetupBoard::RaspberryPiZero)),
        CleanupAction::RemoveBootConfiguration(SetupBoard::RaspberryPiZero)
    ));
    assert!(matches!(cleanup_advance(&mut p, CleanupEvent::Done), CleanupAction::CleanupGadget));
    assert!(matches!(cleanup_advance(&mut p, CleanupEvent::Done), CleanupAction::Finish));
    assert_eq!(p, CleanupPhase::Finished);
    let mut p = CleanupPhase::Start;
    assert!(matches!(cleanup_advance(&mut p, CleanupEvent::Begin { is_root: false }), CleanupAction::Fail(_)));

    assert_eq!(
        gadget_configuration_plan(false, true),
        GadgetConfigurationPlan::Refuse("USB Gadget configuration requires root privileges.".to_string())
    );
    assert_eq!(gadget_configuration_plan(true, true), GadgetConfigurationPlan::AlreadyConfigured);
    assert_eq!(gadget_configuration_plan(true, false), GadgetConfigurationPlan::Configure);
}

#[test]
fn permissions_fix_needs_a_configured_gadget() {
    assert!(splatoon3_ghost_drawer::system_setup::permissions_fix_allowed(true).is_ok());
    match splatoon3_ghost_drawer::system_setup::permissions_fix_allowed(false) {
        Err(SetupError::Unknown(m)) => {
            assert_eq!(m, "USB Gadget is not configured. Please run 'fix-connection' first.")
        }
        other => panic!("unexpected: {:?}", other.is_ok()),
    }
}
