use monitor_toggle_tray::text::strip_ansi_escape_sequences;
use monitor_toggle_tray::app::{parse_current_input, QuickSwitchReport};
use monitor_toggle_tray::config::QuickSwitchState;

#[test]
fn parses_current_input_from_multiple_formats() {
    assert_eq!(parse_current_input("VCP 60 SNC x11"), Some("0x11".into()));
    assert_eq!(
        parse_current_input("VCP code 0x60 (Input Source): HDMI-1 (sl=0x11)"),
        Some("0x11".into())
    );
}

#[test]
fn parses_current_input_from_ddcutil_output() {
    assert_eq!(
        parse_current_input("VCP code 0x60 (Input Source): current value = 0x12, max value = 0x12"),
        Some("0x12".into())
    );
    assert_eq!(
        parse_current_input("something sl=11 other"),
        Some("0x11".into())
    );
}

#[test]
fn quick_switch_report_message_describes_action_and_counts() {
    let report = QuickSwitchReport {
        state: QuickSwitchState::ControlledMonitorsOff,
        controlled_monitors: 2,
        output_count: 2,
        layout_changed: true,
        input_attempts: 1,
        switched_inputs: 1,
        notes: vec!["Dell: no toggle-to input is configured".into()],
    };

    assert_eq!(
        report.message(),
        "Quick switch complete: Handed 2 controlled monitor(s) to the other device. Layout disabled for 2 output(s). Input switches: 1/1 command(s) succeeded. Issues: Dell: no toggle-to input is configured"
    );
}

#[test]
fn strips_ansi_sequences_once_and_for_all() {
    let coloured = "\u{1b}[1;32mVCP code 0x60\u{1b}[0m: Input Source \u{1b}x(sl=0x11)";
    let plain = strip_ansi_escape_sequences(coloured);
    assert_eq!(plain, "VCP code 0x60: Input Source x(sl=0x11)");
    assert!(!plain.contains('\u{1b}'));
    assert_eq!(strip_ansi_escape_sequences(&plain), plain);
    assert_eq!(strip_ansi_escape_sequences("no escapes here"), "no escapes here");
}
