use monitor_toggle_tray::app::{quick_switch_actions, QuickSwitchAction, QuickSwitchPlan};
use monitor_toggle_tray::config::QuickSwitchState;
use monitor_toggle_tray::discovery::descriptor_text_of;
use monitor_toggle_tray::display::{DisplayBackend, DisplayOutput};
use monitor_toggle_tray::monitor::MonitorInfo;
use monitor_toggle_tray::switcher::{extend_steps, laptop_only_step, DisplayPair, ExtendStep, LaptopOnlyStep};
use monitor_toggle_tray::switcher_text::{
    autostart_desktop_entry, desktop_icon_value, parse_current_input, parse_kscreen_listing, parse_kscreen_outputs,
    parse_xrandr_outputs, should_log_command_start_and_success, tray_icon_theme_path,
};

fn output(id: &str, name: &str) -> DisplayOutput {
    DisplayOutput { id: id.into(), name: name.into(), connected: true, internal: false, current_mode: None, position: None, scale: None }
}

#[test]
fn switcher_reads_a_bare_kscreen_mode() {
    let outputs = parse_kscreen_outputs("Output: 1 eDP-1 enabled connected 1920x1200 priority 1\n");
    assert_eq!(outputs.len(), 1);
    assert_eq!(outputs[0].current_mode, Some((1920, 1200)));
    assert_eq!(outputs[0].position, None);
    assert!(outputs[0].internal);

    let geometry = parse_kscreen_outputs("\u{1b}[32mOutput:\u{1b}[0m 2 HDMI-A-1 2560x1440+1920+0\n");
    assert_eq!(geometry[0].name, "HDMI-A-1");
    assert_eq!(geometry[0].current_mode, Some((2560, 1440)));
    assert!(geometry[0].connected);
    assert_eq!(parse_kscreen_listing("garbage\n").unwrap_err(), "Unable to parse kscreen-doctor output.");
    assert!(parse_kscreen_listing("  \n").unwrap().is_empty());
}

#[test]
fn switcher_reads_xrandr_modes_after_the_state() {
    let outputs = parse_xrandr_outputs(
        "eDP-1 connected primary 1920x1080+0+0\nHDMI-A-1 connected 2560x1440\nDP-1 disconnected\n",
    );
    assert_eq!(outputs.len(), 3);
    assert!(outputs[0].internal);
    assert_eq!(outputs[0].current_mode, Some((1920, 1080)));
    assert_eq!(outputs[1].current_mode, Some((2560, 1440)));
    assert_eq!(outputs[1].position, None);
    assert!(!outputs[2].connected);
    assert_eq!(outputs[2].current_mode, None);
}

#[test]
fn switcher_reads_the_current_input_its_own_way() {
    assert_eq!(
        parse_current_input("VCP code 0x60 (Input Source): current value = 0x12, max value = 0x12"),
        Some("0x12".into())
    );
    assert_eq!(parse_current_input("something sl=11 other"), Some("0x11".into()));
    assert_eq!(parse_current_input("sl=0x1"), Some("0x1".into()));
    assert_eq!(parse_current_input("VCP 60 SNC x11"), None);
    assert_eq!(parse_current_input("current value = zz sl=0X0F"), Some("0x0f".into()));
}

#[test]
fn switcher_logs_ddcutil_only_for_a_leading_setvcp() {
    let args = |v: &[&str]| v.iter().map(|a| a.to_string()).collect::<Vec<_>>();
    assert!(should_log_command_start_and_success("ddcutil", &args(&["setvcp", "60", "0x11"])));
    assert!(!should_log_command_start_and_success("ddcutil", &args(&["--bus", "4", "setvcp", "60", "0x11"])));
    assert!(!should_log_command_start_and_success("ddcutil", &[]));
    assert!(!should_log_command_start_and_success("xrandr", &args(&["--query"])));
    assert!(should_log_command_start_and_success("xrandr", &args(&["--output", "HDMI-A-1", "--off"])));
    assert!(!should_log_command_start_and_success("kscreen-doctor", &args(&["-o"])));
    assert!(should_log_command_start_and_success("notify-send", &[]));
}

#[test]
fn switcher_writes_its_own_desktop_entry() {
    assert_eq!(
        autostart_desktop_entry("/opt/my \"app\"", "", "video-display"),
        "[Desktop Entry]\nType=Application\nVersion=1.0\nName=Monitor Toggle\nComment=Tray app for switching monitor input\nExec=\"/opt/my \\\"app\\\"\"\nIcon=video-display\nTerminal=false\nCategories=Utility;\nX-GNOME-Autostart-enabled=true\n"
    );
    assert!(autostart_desktop_entry("/bin/t", " --hdmi-switcher", "i").contains("Exec=\"/bin/t\" --hdmi-switcher\n"));
    assert_eq!(desktop_icon_value("/icons/a.svg", true), "/icons/a.svg");
    assert_eq!(desktop_icon_value("/icons/a.svg", false), "video-display");
    assert_eq!(tray_icon_theme_path("/icons", true), "/icons");
    assert_eq!(tray_icon_theme_path("/icons", false), "");
}

#[test]
fn switcher_extends_in_order() {
    let usual = DisplayPair { anchor: output("1", "eDP-1"), external: output("2", "HDMI-A-1") };
    let steps = extend_steps(DisplayBackend::KscreenDoctor, &usual);
    assert_eq!(steps.len(), 1);
    assert!(matches!(&steps[0], ExtendStep::Run(c) if c.program == "kscreen-doctor"));
    let other = DisplayPair { anchor: output("1", "eDP-1"), external: output("3", "DP-1") };
    let steps = extend_steps(DisplayBackend::KscreenDoctor, &other);
    assert!(matches!(steps.as_slice(), [ExtendStep::Provisional, ExtendStep::Positioned]));
    let steps = extend_steps(DisplayBackend::Xrandr, &other);
    match steps.as_slice() {
        [ExtendStep::Run(a), ExtendStep::Run(b)] => {
            assert_eq!(a.args, vec!["--output", "eDP-1", "--auto", "--primary"]);
            assert_eq!(b.args, vec!["--output", "DP-1", "--auto", "--above", "eDP-1"]);
        }
        _ => panic!("expected two commands"),
    }
    assert_eq!(laptop_only_step(0), LaptopOnlyStep::Apply);
    assert_eq!(laptop_only_step(3), LaptopOnlyStep::Check);
}

fn monitor() -> MonitorInfo {
    MonitorInfo {
        id: "internal:eDP-1".into(),
        display_name: "Built-in display".into(),
        output_name: "eDP-1".into(),
        connected: true,
        active: true,
        internal: true,
        position: Some((0, 0)),
        current_mode: Some((1920, 1080)),
        ddc: None,
    }
}

#[test]
fn quick_switch_disables_before_inputs_and_restores_after() {
    let plan = |direction| QuickSwitchPlan {
        direction,
        primary: monitor(),
        controlled: vec![],
        outputs: vec![],
        steps: vec![],
        primary_position: None,
    };
    assert_eq!(
        quick_switch_actions(&plan(QuickSwitchState::ControlledMonitorsOff)),
        vec![QuickSwitchAction::DisableOutputs, QuickSwitchAction::SwitchInputs]
    );
    assert_eq!(
        quick_switch_actions(&plan(QuickSwitchState::ControlledMonitorsOn)),
        vec![QuickSwitchAction::SwitchInputs, QuickSwitchAction::EnableOutputs]
    );
}

#[test]
fn cleans_decoded_descriptor_text() {
    assert_eq!(descriptor_text_of("\0\0DELL U2720Q\n  \0"), "DELL U2720Q");
    assert_eq!(descriptor_text_of("  ABC123\n"), "ABC123");
    assert_eq!(descriptor_text_of("\0\0\0"), "");
}
