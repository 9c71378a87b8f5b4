use monitor_toggle_tray::monitor::{
    fallback_input_choices, input_label, normalize_hex_value, parse_capabilities_inputs,
    parse_ddc_detect, parse_getvcp_input, dedupe_inputs, InputSource,
};

#[test]
fn parses_brief_detect_output() {
    let parsed = parse_ddc_detect(
        "Display 1\n   I2C bus:             /dev/i2c-7\n   Monitor:             DEL:DELL U2720Q:ABC123\n",
    );

    assert_eq!(parsed.len(), 1);
    assert_eq!(parsed[0].display_number, 1);
    assert_eq!(parsed[0].manufacturer, "DEL");
    assert_eq!(parsed[0].model, "DELL U2720Q");
    assert_eq!(parsed[0].serial, "ABC123");
}

#[test]
fn parses_getvcp_input_from_brief_output() {
    assert_eq!(parse_getvcp_input("VCP 60 SNC x11"), Some("0x11".into()));
    assert_eq!(
        parse_getvcp_input("VCP code 0x60 (Input Source): HDMI-1 (sl=0x11)"),
        Some("0x11".into())
    );
}

#[test]
fn parses_capabilities_values() {
    let inputs = parse_capabilities_inputs(
        "Feature: 60 (Input Source)\n   Values (  parsed):\n      0f: DisplayPort-1\n      11: HDMI-1\n      12: HDMI-2\nFeature: 62 (Audio speaker volume)\n",
    );

    assert_eq!(inputs.len(), 3);
    assert_eq!(inputs[0].value, "0x0f");
    assert_eq!(inputs[1].label, "HDMI 1");
}

#[test]
fn detect_splits_displays_on_blank_lines_and_bus() {
    let parsed = parse_ddc_detect(
        "Display 1\n   I2C bus: /dev/i2c-3\n\nInvalid display\n   Monitor: X:Y:Z\nDisplay 2\n   Monitor: ACR:Nitro\n",
    );
    assert_eq!(parsed.len(), 2);
    assert_eq!(parsed[0].bus, Some("/dev/i2c-3".to_string()));
    assert_eq!(parsed[0].manufacturer, "");
    assert_eq!(parsed[1].display_number, 2);
    assert_eq!(parsed[1].manufacturer, "ACR");
    assert_eq!(parsed[1].model, "Nitro");
    assert_eq!(parsed[1].serial, "");
    assert_eq!(parsed[1].bus, None);
}

#[test]
fn detect_ignores_unparsable_display_numbers() {
    let parsed = parse_ddc_detect("Display x\n   Monitor: A:B:C\n");
    assert!(parsed.is_empty());
}

#[test]
fn capabilities_stop_at_next_feature_and_skip_bad_lines() {
    let inputs = parse_capabilities_inputs(
        "Feature: 10 (Brightness)\n   Values:\n      01: Nope\nFeature: 0x60 (Input Source)\n   01: Before values\n   Values:\n      zz: Bad\n      03:\n      03: DVI-1\nFeature: 62\n      04: After\n",
    );
    assert_eq!(inputs.len(), 1);
    assert_eq!(inputs[0].value, "0x03");
    assert_eq!(inputs[0].label, "DVI 1");
}

#[test]
fn getvcp_prefers_current_value_marker_and_rejects_garbage() {
    assert_eq!(
        parse_getvcp_input("VCP code 0x60 (Input Source): current value = 0x0f, max value = 0x12"),
        Some("0x0f".into())
    );
    assert_eq!(parse_getvcp_input("no value here"), None);
    assert_eq!(parse_getvcp_input("sl=zz SNC x12"), Some("0x12".into()));
    assert_eq!(parse_getvcp_input("sl=0x1ff"), None);
}

#[test]
fn normalizes_hex_values() {
    assert_eq!(normalize_hex_value(" 11 "), Some("0x11".into()));
    assert_eq!(normalize_hex_value("0X0F"), Some("0x0f".into()));
    assert_eq!(normalize_hex_value("0x0x12"), Some("0x12".into()));
    assert_eq!(normalize_hex_value("0x"), None);
    assert_eq!(normalize_hex_value(""), None);
    assert_eq!(normalize_hex_value("1g"), None);
    assert_eq!(normalize_hex_value("100"), None);
}

#[test]
fn labels_inputs() {
    assert_eq!(input_label("0x11"), "HDMI 1");
    assert_eq!(input_label("f"), "DisplayPort 1");
    assert_eq!(input_label("0x1a"), "Input 0X1A");
    assert_eq!(input_label("bogus"), "Unknown input");
    assert_eq!(input_label("7"), "S-Video 1");
}

#[test]
fn fallback_choices_add_unlisted_current_input() {
    let base = fallback_input_choices(None);
    assert_eq!(base.len(), 4);
    assert_eq!(base[0].value, "0x0f");
    assert_eq!(base[3].label, "HDMI 2");
    let listed = fallback_input_choices(Some("11"));
    assert_eq!(listed.len(), 4);
    let extra = fallback_input_choices(Some("0x01"));
    assert_eq!(extra.len(), 5);
    assert_eq!(extra[4].value, "0x01");
    assert_eq!(extra[4].label, "VGA 1");
    assert_eq!(fallback_input_choices(Some("junk")).len(), 4);
}

#[test]
fn dedupes_inputs_keeping_first() {
    let inputs = vec![
        InputSource { value: "0x11".into(), label: "A".into() },
        InputSource { value: "0x12".into(), label: "B".into() },
        InputSource { value: "0x11".into(), label: "C".into() },
    ];
    let deduped = dedupe_inputs(inputs);
    assert_eq!(deduped.len(), 2);
    assert_eq!(deduped[0].label, "A");
    assert_eq!(deduped[1].label, "B");
}
