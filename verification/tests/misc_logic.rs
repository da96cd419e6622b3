use splatoon3_ghost_drawer::cli::{Cli, Commands};
use splatoon3_ghost_drawer::controller_test::{
    a_button_test_command, button_test_command, parse_test_mode, stick_circle_commands, test_seconds, TestMode,
};
use splatoon3_ghost_drawer::controller_values::{ActionType, Button, StickPosition};
use splatoon3_ghost_drawer::diagnostics::{DebugConfig, LogLevel, PerformanceStats};
use splatoon3_ghost_drawer::hardware::HardwareError;

#[test]
fn debug_presets() {
    let d = DebugConfig::development();
    assert_eq!(d.log_level, LogLevel::Debug);
    assert_eq!(d.log_directory, "logs");
    let p = DebugConfig::production();
    assert!(p.use_json_format && !p.enable_console_logging);
    assert_eq!(p.log_directory, "/var/log/splatoon3-ghost-drawer");
    let t = DebugConfig::test();
    assert!(!t.enable_file_logging);
    assert_eq!(t.filter_directive(), "splatoon3_ghost_drawer=WARN");
    assert_eq!(DebugConfig::default().filter_directive(), "splatoon3_ghost_drawer=INFO");
}

#[test]
fn performance_summaries() {
    let mut stats = PerformanceStats::new();
    stats.record_operation("draw", 10);
    stats.record_operation("load", 7);
    stats.record_operation("draw", 30);
    stats.record_operation("draw", 21);
    assert_eq!(stats.operations.len(), 2);
    assert!(stats.totals_fit());
    let s = stats.summaries();
    assert_eq!(s.len(), 2);
    assert_eq!(s[0].name, "draw");
    assert_eq!(s[0].count, 3);
    assert_eq!(s[0].avg_ms, 20);
    assert_eq!(s[0].min_ms, 10);
    assert_eq!(s[0].max_ms, 30);
    assert_eq!(s[1].avg_ms, 7);
    let mut big = PerformanceStats::new();
    big.record_operation("x", u128::MAX);
    big.record_operation("x", 1);
    assert!(!big.totals_fit());
}

#[test]
fn controller_test_modes_and_commands() {
    assert_eq!(parse_test_mode("basic").unwrap(), TestMode::Basic);
    assert_eq!(parse_test_mode("sticks").unwrap(), TestMode::Sticks);
    match parse_test_mode("dance") {
        Err(HardwareError::InvalidParameter(m)) => assert_eq!(m, "Unknown test mode: dance"),
        _ => panic!("unknown mode expected"),
    }
    assert_eq!(test_seconds(TestMode::Buttons, 0), 28);
    assert_eq!(test_seconds(TestMode::Basic, 0), 10);
    assert_eq!(test_seconds(TestMode::Sticks, 7), 7);
    let a = a_button_test_command();
    assert_eq!(a.name, "Test A button");
    assert_eq!(a.sequence.len(), 3);
    assert_eq!(a.sequence[0].action_type, ActionType::PressButton(Button::A()));
    let circle = stick_circle_commands();
    assert_eq!(circle.len(), 9);
    assert_eq!(circle[0].sequence[0].action_type, ActionType::MoveLeftStick(StickPosition::new(128, 255)));
    assert_eq!(circle[5].sequence[0].action_type, ActionType::MoveLeftStick(StickPosition::new(1, 1)));
    assert_eq!(circle[8].sequence[0].action_type, ActionType::MoveLeftStick(StickPosition::new(128, 128)));
    let b = button_test_command(Button::ZR(), "ZR");
    assert_eq!(b.name, "Test ZR button");
    assert_eq!(b.sequence[1].duration_ms, 200);
    assert_eq!(b.sequence[2].duration_ms, 1000);
}

#[test]
fn cli_values() {
    let cli = Cli { command: Commands::Run { port: 8080, host: "0.0.0.0".to_string() } };
    assert_eq!(cli.command, Commands::Run { port: 8080, host: "0.0.0.0".to_string() });
    assert_ne!(Commands::Cleanup, Commands::Diagnose);
}
