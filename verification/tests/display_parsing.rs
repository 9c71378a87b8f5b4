use monitor_toggle_tray::display::{
    display_backend_candidates, is_internal_output, parse_output_mode, DisplayBackend,
};

#[test]
fn detects_internal_output_from_standard_connector_names() {
    assert!(is_internal_output("eDP-1"));
    assert!(is_internal_output("LVDS-1"));
    assert!(is_internal_output("DSI-1"));
    assert!(!is_internal_output("HDMI-A-1"));
}

#[test]
fn parses_output_mode_from_xrandr_geometry() {
    assert_eq!(parse_output_mode("1920x1080+0+0"), Some((1920, 1080)));
    assert_eq!(parse_output_mode("2560x1440"), Some((2560, 1440)));
    assert_eq!(parse_output_mode("primary"), None);
}

#[test]
fn prefers_wayland_friendly_backend_order() {
    assert_eq!(
        display_backend_candidates("wayland"),
        [DisplayBackend::KscreenDoctor, DisplayBackend::Xrandr]
    );
    assert_eq!(
        display_backend_candidates("x11"),
        [DisplayBackend::Xrandr, DisplayBackend::KscreenDoctor]
    );
}
