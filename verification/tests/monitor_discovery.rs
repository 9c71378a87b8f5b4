use monitor_toggle_tray::discovery::{
    capabilities_command, ddc_match_keys, detect_command, discover_monitors, enrich_ddc_monitor,
    getvcp_input_command, match_ddc_monitor, monitor_id_for_output, normalize_key_part,
    output_label, parse_edid_manufacturer, parse_edid_numeric_serial, parse_edid_text_descriptor,
    parse_output_sysfs_info, set_input_for_monitor, single_external_match, OutputSysfsInfo,
};
use monitor_toggle_tray::display::DisplayOutput;
use monitor_toggle_tray::monitor::{parse_ddc_detect, DiscoveredDdcMonitor};

fn descriptor(edid: &mut [u8], slot: usize, kind: u8, text: &[u8]) {
    let start = 54 + 18 * slot;
    edid[start] = 0;
    edid[start + 1] = 0;
    edid[start + 2] = 0;
    edid[start + 3] = kind;
    edid[start + 4] = 0;
    for k in 0..13 {
        edid[start + 5 + k] = if k < text.len() { text[k] } else { b' ' };
    }
}

fn sample_edid() -> Vec<u8> {
    let mut edid = vec![1u8; 128];
    edid[8] = 0x10;
    edid[9] = 0xAC;
    edid[12] = 0x39;
    edid[13] = 0x30;
    edid[14] = 0;
    edid[15] = 0;
    descriptor(&mut edid, 0, 0xfc, b"DELL U2720Q\n");
    descriptor(&mut edid, 1, 0xff, b"ABC123\n");
    edid
}

fn output(id: &str, name: &str, connected: bool, internal: bool, mode: Option<(u32, u32)>) -> DisplayOutput {
    DisplayOutput { id: id.into(), name: name.into(), connected, internal, current_mode: mode, position: None, scale: None }
}

fn dell() -> DiscoveredDdcMonitor {
    DiscoveredDdcMonitor {
        display_number: 1,
        bus: Some("/dev/i2c-7".into()),
        manufacturer: "DEL".into(),
        model: "DELL U2720Q".into(),
        serial: "ABC123".into(),
        current_input: Some("0x11".into()),
        supported_inputs: Vec::new(),
        capabilities_known: false,
        input_switching_supported: true,
    }
}

#[test]
fn reads_manufacturer_serial_and_descriptors_from_edid() {
    let edid = sample_edid();
    assert_eq!(parse_edid_manufacturer(&edid), Some("DEL".into()));
    assert_eq!(parse_edid_numeric_serial(&edid), Some(0x3039));
    assert_eq!(parse_edid_text_descriptor(&edid, 0xfc), Some("DELL U2720Q".into()));
    assert_eq!(parse_edid_text_descriptor(&edid, 0xff), Some("ABC123".into()));
    assert_eq!(parse_edid_text_descriptor(&edid, 0xfe), None);
    assert_eq!(parse_edid_manufacturer(&edid[..9]), None);
}

#[test]
fn decodes_invalid_descriptor_bytes_as_replacement_characters() {
    let mut edid = sample_edid();
    descriptor(&mut edid, 2, 0xfe, b"Panel\xff\n");
    assert_eq!(parse_edid_text_descriptor(&edid, 0xfe), Some("Panel\u{fffd}".into()));
}

#[test]
fn falls_back_to_numeric_serial_and_skips_zero() {
    let mut edid = sample_edid();
    descriptor(&mut edid, 1, 0x10, b"");
    let info = parse_output_sysfs_info(&edid);
    assert_eq!(info.manufacturer, Some("DEL".into()));
    assert_eq!(info.model, Some("DELL U2720Q".into()));
    assert_eq!(info.serial, Some("12345".into()));
    edid[12] = 0;
    edid[13] = 0;
    assert_eq!(parse_edid_numeric_serial(&edid), None);
    assert_eq!(parse_output_sysfs_info(&edid).serial, None);
}

#[test]
fn builds_match_keys_and_ids() {
    assert_eq!(normalize_key_part("  DeLL U2720Q "), "dell u2720q");
    assert_eq!(ddc_match_keys(&dell()), vec!["del:dell u2720q:abc123".to_string(), "del:dell u2720q".to_string()]);
    let sysfs = parse_output_sysfs_info(&sample_edid());
    let hdmi = output("2", "HDMI-A-1", true, false, Some((2560, 1440)));
    assert_eq!(monitor_id_for_output(&hdmi, Some(&sysfs)), "del:dell u2720q:abc123");
    assert_eq!(monitor_id_for_output(&hdmi, None), "output:HDMI-A-1");
    let panel = output("1", "eDP-1", true, true, Some((1920, 1200)));
    assert_eq!(monitor_id_for_output(&panel, Some(&sysfs)), "internal:eDP-1");
    assert_eq!(output_label(&panel, None, None), "Built-in display (eDP-1)");
    assert_eq!(output_label(&hdmi, Some(&sysfs), None), "DELL U2720Q (HDMI-A-1)");
    assert_eq!(output_label(&hdmi, None, Some(&dell())), "DELL U2720Q (HDMI-A-1)");
    assert_eq!(output_label(&hdmi, None, None), "HDMI-A-1");
}

#[test]
fn matches_ddc_monitors_by_edid_keys_and_bus() {
    let sysfs = parse_output_sysfs_info(&sample_edid());
    let mut other = dell();
    other.display_number = 2;
    other.serial = "ZZZ".into();
    other.bus = Some("/dev/i2c-HDMI-A-2".into());
    let ddc = vec![other, dell()];
    assert_eq!(match_ddc_monitor("HDMI-A-1", Some(&sysfs), &ddc), Some(1));
    assert_eq!(match_ddc_monitor("HDMI-A-1", None, &ddc), None);
    let partial = OutputSysfsInfo { manufacturer: Some("DEL".into()), model: Some("DELL U2720Q".into()), serial: None };
    assert_eq!(match_ddc_monitor("HDMI-A-2", Some(&partial), &ddc), Some(0));
    assert_eq!(match_ddc_monitor("DP-1", Some(&partial), &ddc), None);
}

#[test]
fn single_external_output_takes_the_only_ddc_monitor() {
    let outputs = vec![output("1", "eDP-1", true, true, None), output("2", "HDMI-A-1", true, false, None)];
    assert_eq!(single_external_match(&outputs, &[dell()]), Some(0));
    assert_eq!(single_external_match(&outputs, &[dell(), dell()]), None);
}

#[test]
fn discovers_monitors_in_listing_order() {
    let outputs = vec![
        output("2", "HDMI-A-1", true, false, Some((2560, 1440))),
        output("1", "eDP-1", true, true, Some((1920, 1200))),
        output("3", "DP-1", false, false, None),
    ];
    let sysfs = vec![("HDMI-A-1".to_string(), parse_output_sysfs_info(&sample_edid()))];
    let snapshot = discover_monitors(&outputs, &sysfs, &[dell()]);
    assert_eq!(snapshot.monitors.len(), 3);
    assert_eq!(snapshot.monitors[0].id, "internal:eDP-1");
    assert_eq!(snapshot.monitors[0].display_name, "Built-in display (eDP-1)");
    assert!(snapshot.monitors[0].active);
    assert!(snapshot.monitors[0].ddc.is_none());
    assert_eq!(snapshot.monitors[1].id, "del:dell u2720q:abc123");
    assert_eq!(snapshot.monitors[1].display_name, "DELL U2720Q (HDMI-A-1)");
    assert_eq!(snapshot.monitors[1].ddc.as_ref().map(|d| d.display_number), Some(1));
    assert_eq!(snapshot.monitors[2].id, "output:DP-1");
    assert!(!snapshot.monitors[2].active);
}

#[test]
fn enriches_ddc_monitor_from_reports() {
    let detected = parse_ddc_detect("Display 3\n   I2C bus:  /dev/i2c-5\n   Monitor:  DEL:DELL U2720Q:ABC123\n").remove(0);
    let enriched = enrich_ddc_monitor(
        detected,
        Some("VCP 60 SNC x11"),
        Some("Feature: 60 (Input Source)\n   Values:\n      11: HDMI-1\n      11: HDMI-1 again\n      0f: DisplayPort-1\n"),
    );
    assert_eq!(enriched.display_number, 3);
    assert_eq!(enriched.current_input, Some("0x11".into()));
    assert!(enriched.input_switching_supported);
    assert!(enriched.capabilities_known);
    assert_eq!(enriched.supported_inputs.len(), 2);
    assert_eq!(enriched.supported_inputs[0].value, "0x11");
    assert_eq!(enriched.supported_inputs[1].value, "0x0f");

    let bare = parse_ddc_detect("Display 4\n   Monitor:  ABC:Model:1\n").remove(0);
    let fallback = enrich_ddc_monitor(bare, Some("VCP 60 SNC x1b"), None);
    assert!(!fallback.capabilities_known);
    assert_eq!(fallback.current_input, Some("0x1b".into()));
    assert_eq!(fallback.supported_inputs.len(), 5);
    assert_eq!(fallback.supported_inputs[4].value, "0x1b");
    assert_eq!(fallback.supported_inputs[4].label, "Input 0X1B");

    let silent = parse_ddc_detect("Display 5\n").remove(0);
    let none = enrich_ddc_monitor(silent, None, None);
    assert_eq!(none.current_input, None);
    assert!(!none.input_switching_supported);
    assert_eq!(none.supported_inputs.len(), 4);
}

#[test]
fn builds_ddcutil_commands() {
    let detect = detect_command();
    assert_eq!(detect.program, "ddcutil");
    assert_eq!(detect.args, vec!["detect", "--brief"]);
    assert_eq!(getvcp_input_command(2).args, vec!["--display", "2", "getvcp", "60", "--brief"]);
    assert_eq!(capabilities_command(12).args, vec!["--display", "12", "capabilities"]);
    let set = set_input_for_monitor(1, "0x11");
    assert_eq!(set.program, "ddcutil");
    assert_eq!(set.args, vec!["--display", "1", "setvcp", "60", "0x11"]);
}
