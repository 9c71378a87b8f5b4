use monitor_toggle_tray::display::{
    find_anchor_output, find_external_output, find_internal_output, find_known_external_output,
    has_connected_external_output, merge_output_data, parse_kscreen_outputs, parse_xrandr_outputs,
    primary_only_position, DisplayOutput,
};
use monitor_toggle_tray::switcher::resolve_output_mode;

fn output(name: &str, connected: bool, internal: bool) -> DisplayOutput {
    DisplayOutput {
        id: name.into(),
        name: name.into(),
        connected,
        internal,
        current_mode: None,
        position: None,
        scale: None,
    }
}

fn active_output(name: &str, connected: bool, internal: bool, width: u32, height: u32) -> DisplayOutput {
    DisplayOutput {
        id: name.into(),
        name: name.into(),
        connected,
        internal,
        current_mode: Some((width, height)),
        position: None,
        scale: None,
    }
}

#[test]
fn falls_back_to_non_external_connected_output() {
    let outputs = vec![output("Unknown-1", true, false), output("HDMI-A-1", true, false)];
    let internal = find_internal_output(&outputs).expect("expected laptop display");
    assert_eq!(internal.name, "Unknown-1");
}

#[test]
fn prefers_explicit_internal_output_when_available() {
    let outputs = vec![output("eDP-1", true, true), output("HDMI-A-1", true, false)];
    let internal = find_internal_output(&outputs).expect("expected laptop display");
    assert_eq!(internal.name, "eDP-1");
}

#[test]
fn falls_back_to_any_connected_output_as_anchor() {
    let outputs = vec![output("Unknown-1", true, false), output("HDMI-A-1", false, false)];
    let anchor = find_anchor_output(&outputs).expect("expected anchor output");
    assert_eq!(anchor.name, "Unknown-1");
}

#[test]
fn laptop_only_layout_requires_internal_display() {
    let outputs = vec![output("HDMI-A-1", true, false)];
    assert!(find_internal_output(&outputs).is_none());
}

#[test]
fn detects_connected_secondary_display() {
    let outputs = vec![output("eDP-1", true, true), output("HDMI-A-1", true, false)];
    let external = find_external_output(&outputs).expect("expected external output");
    assert_eq!(external.name, "HDMI-A-1");
}

#[test]
fn falls_back_to_known_external_output_for_wayland_style_topology() {
    let outputs = vec![output("eDP-1", false, true), output("HDMI-A-1", false, false)];
    let external = find_known_external_output(&outputs).expect("expected known external output");
    assert_eq!(external.name, "HDMI-A-1");
}

#[test]
fn detects_when_connected_external_output_is_present() {
    let outputs = vec![
        active_output("eDP-1", true, true, 1920, 1200),
        active_output("HDMI-A-1", true, false, 2944, 1656),
    ];
    assert!(has_connected_external_output(&outputs));
}

#[test]
fn ignores_disconnected_external_output_in_stability_check() {
    let outputs = vec![active_output("eDP-1", true, true, 1920, 1200), output("HDMI-A-1", false, false)];
    assert!(!has_connected_external_output(&outputs));
}

#[test]
fn parses_xrandr_output_lines() {
    let outputs = parse_xrandr_outputs(
        "eDP-1 connected primary 1920x1080+0+0\nHDMI-A-1 connected 2560x1440+1920+0\nDP-1 disconnected\n",
    );
    assert_eq!(outputs.len(), 3);
    assert!(outputs[0].internal);
    assert!(outputs[1].connected);
    assert!(!outputs[2].connected);
    assert_eq!(outputs[0].current_mode, Some((1920, 1080)));
    assert_eq!(outputs[1].current_mode, Some((2560, 1440)));
}

#[test]
fn prefers_existing_output_mode_when_available() {
    let output = active_output("eDP-1", true, true, 1920, 1200);
    assert_eq!(resolve_output_mode(&output, None), Some((1920, 1200)));
}

#[test]
fn resolve_output_mode_with_retries_returns_existing_mode_immediately() {
    let output = active_output("HDMI-A-1", true, false, 2944, 1656);
    assert_eq!(resolve_output_mode(&output, None), Some((2944, 1656)));
}

#[test]
fn parses_kscreen_output_lines() {
    let outputs = parse_kscreen_outputs(
        "Output: 1 eDP-1 enabled connected priority 1 Panel\nOutput: 2 HDMI-A-1 enabled connected priority 2\n",
    );
    assert_eq!(outputs.len(), 2);
    assert!(outputs[0].internal);
    assert!(outputs[1].connected);
}

#[test]
fn treats_enabled_kscreen_outputs_as_connected() {
    let outputs = parse_kscreen_outputs("Output: 1 eDP-1 enabled priority 1 Panel\nOutput: 2 HDMI-A-1 enabled priority 2\n");
    assert_eq!(outputs.len(), 2);
    assert!(outputs[0].connected);
    assert!(outputs[1].connected);
}

#[test]
fn parses_kscreen_output_lines_with_geometry_and_ansi_sequences() {
    let outputs = parse_kscreen_outputs("\u{1b}[32mOutput:\u{1b}[0m 1 eDP-1 enabled connected 1920x1200+0+0 priority 1 Panel\n");
    assert_eq!(outputs.len(), 1);
    assert_eq!(outputs[0].name, "eDP-1");
    assert_eq!(outputs[0].current_mode, Some((1920, 1200)));
}

#[test]
fn parses_kscreen_panel_marker_as_internal() {
    let outputs = parse_kscreen_outputs(
        "Output: 1 Unknown-1 enabled connected priority 1 Panel\nOutput: 2 HDMI-A-1 enabled connected priority 2\n",
    );
    assert_eq!(outputs.len(), 2);
    assert!(outputs[0].internal);
    assert!(!outputs[1].internal);
}

#[test]
fn parses_xrandr_geometry_and_position() {
    let outputs = parse_xrandr_outputs("eDP-1 connected primary 1920x1080+0+1080\nHDMI-A-1 connected 2560x1440+0+0\n");
    assert_eq!(outputs.len(), 2);
    assert_eq!(outputs[0].current_mode, Some((1920, 1080)));
    assert_eq!(outputs[0].position, Some((0, 1080)));
    assert_eq!(outputs[1].position, Some((0, 0)));
}

fn full(id: &str, name: &str, connected: bool, internal: bool, mode: Option<(u32, u32)>, position: Option<(i32, i32)>) -> DisplayOutput {
    DisplayOutput { id: id.into(), name: name.into(), connected, internal, current_mode: mode, position, scale: None }
}

#[test]
fn merges_fallback_connection_state_and_modes() {
    let preferred = vec![full("1", "eDP-1", false, true, None, None), full("2", "HDMI-A-1", false, false, None, None)];
    let fallback = vec![
        full("eDP-1", "eDP-1", true, true, Some((1920, 1200)), Some((0, 0))),
        full("HDMI-A-1", "HDMI-A-1", true, false, Some((2944, 1656)), Some((0, 0))),
    ];
    let merged = merge_output_data(preferred, &fallback);
    assert!(merged.iter().any(|output| output.name == "eDP-1" && output.connected && output.current_mode == Some((1920, 1200))));
    assert!(merged.iter().any(|output| output.name == "HDMI-A-1" && output.connected && output.current_mode == Some((2944, 1656))));
}

#[test]
fn resets_primary_to_origin_for_primary_only_layout() {
    let primary = full("1", "eDP-1", true, true, Some((1920, 1080)), Some((0, 1080)));
    assert_eq!(primary_only_position(&primary), (0, 0));
}

#[test]
fn kscreen_scale_is_kept_as_text() {
    let outputs = parse_kscreen_outputs("Output: 1 eDP-1 connected enabled 3840x2400+0+0 Scale: 2\n");
    assert_eq!(outputs.len(), 1);
    assert_eq!(outputs[0].current_mode, Some((3840, 2400)));
    assert_eq!(outputs[0].position, Some((0, 0)));
    assert_eq!(outputs[0].scale.as_deref(), Some("2"));
}

#[test]
fn resolves_mode_from_listing_by_name_and_internal_fallback() {
    let bare = output("HDMI-A-1", true, false);
    let listing = vec![active_output("eDP-1", true, true, 1920, 1200), active_output("HDMI-A-1", true, false, 2560, 1440)];
    assert_eq!(resolve_output_mode(&bare, Some(&listing)), Some((2560, 1440)));
    let panel = output("eDP-2", true, true);
    assert_eq!(resolve_output_mode(&panel, Some(&listing)), Some((1920, 1200)));
    let other = output("DP-3", true, false);
    assert_eq!(resolve_output_mode(&other, Some(&listing)), None);
    assert_eq!(resolve_output_mode(&other, None), None);
}
