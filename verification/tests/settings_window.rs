use monitor_toggle_tray::config::{AppConfig, MonitorSettings, QuickSwitchState};
use monitor_toggle_tray::display::DisplayBackend;
use monitor_toggle_tray::layout::{kwin_saved_layout, save_current_layout, KwinOutputMeta, KwinSetup, KwinSetupOutput};
use monitor_toggle_tray::monitor::{DdcMonitorInfo, InputSource, MonitorInfo, MonitorSnapshot};
use monitor_toggle_tray::window::{diagnostics_report, load_settings_view, settings_monitor_row, DiagnosticsFacts};

fn monitor(id: &str, output: &str, internal: bool, active: bool, position: Option<(i32, i32)>) -> MonitorInfo {
    MonitorInfo {
        id: id.into(),
        display_name: format!("{output} monitor"),
        output_name: output.into(),
        connected: true,
        active,
        internal,
        position,
        current_mode: if active { Some((1920, 1080)) } else { None },
        ddc: None,
    }
}

fn settings(id: &str, in_quick_switch: bool) -> MonitorSettings {
    MonitorSettings {
        monitor_id: id.into(),
        display_name: "Dell".into(),
        include_in_quick_switch: in_quick_switch,
        laptop_input: Some("0x0f".into()),
        toggle_input: Some("0x11".into()),
        saved_position_x: Some(0),
        saved_position_y: Some(0),
        saved_width: Some(2560),
        saved_height: Some(1440),
    }
}

fn config() -> AppConfig {
    AppConfig { primary_monitor_id: None, last_quick_switch_state: None, monitor_settings: vec![settings("ext", true)] }
}

fn snapshot() -> MonitorSnapshot {
    let mut ext = monitor("ext", "HDMI-A-1", false, true, Some((0, 0)));
    ext.ddc = Some(DdcMonitorInfo {
        display_number: 1,
        current_input: Some("0x0f".into()),
        supported_inputs: vec![],
        capabilities_known: false,
        input_switching_supported: true,
    });
    MonitorSnapshot { monitors: vec![monitor("int", "eDP-1", true, true, Some((0, 1080))), ext] }
}

#[test]
fn rows_show_settings_inputs_and_ddc_status() {
    let snap = snapshot();
    let cfg = config();
    let ext_row = settings_monitor_row(&snap.monitors[1], &cfg, None);
    assert!(ext_row.include_in_quick_switch);
    assert_eq!(ext_row.laptop_input, Some("0x0f".into()));
    assert_eq!(ext_row.toggle_input, Some("0x11".into()));
    assert_eq!(ext_row.current_input, Some("0x0f".into()));
    assert_eq!(ext_row.available_inputs.len(), 4);
    assert_eq!(ext_row.ddc_status, "DDC/CI: available, using fallback choices");
    assert!(!ext_row.is_primary);
    let int_row = settings_monitor_row(&snap.monitors[0], &cfg, Some(&"int".to_string()));
    assert!(int_row.is_primary);
    assert!(!int_row.include_in_quick_switch);
    assert_eq!(int_row.ddc_status, "DDC/CI: unavailable");
    assert!(int_row.available_inputs.is_empty());
}

#[test]
fn settings_view_resolves_primary() {
    let view = load_settings_view(&snapshot(), &config(), true, "Ready".into(), vec!["line".into()]);
    assert_eq!(view.primary_monitor_id, Some("int".into()));
    assert!(view.autostart_enabled);
    assert_eq!(view.status_text, "Ready");
    assert_eq!(view.diagnostics, vec!["line".to_string()]);
    assert_eq!(view.monitors.len(), 2);
    assert!(view.monitors[0].is_primary);
}

fn facts() -> DiagnosticsFacts {
    DiagnosticsFacts {
        switch_in_progress: false,
        snapshot_age_ms: Some(1500),
        ddc_monitor_count: 1,
        ddc_discovery_age_ms: None,
        ddc_input_age_ms: Some(250),
        backend: Ok((DisplayBackend::KscreenDoctor, 2)),
        ddcutil_available: true,
        xrandr_available: false,
        kscreen_doctor_available: true,
        tray_icon_available: true,
        autostart_enabled: false,
        last_command_failure: None,
        log_file: "/tmp/debug.log".into(),
    }
}

#[test]
fn diagnostics_list_every_fact() {
    let report = diagnostics_report(&facts(), Some(&snapshot()), &config());
    assert_eq!(report.lines.len(), 15);
    assert_eq!(report.lines[0], "Quick switch busy: no");
    assert_eq!(report.lines[1], "Monitor snapshot cache age: 1s");
    assert_eq!(report.lines[2], "DDC cache: 1 monitors, discovery age empty, input age 250ms");
    assert_eq!(report.lines[3], "Display backend: KscreenDoctor (2 outputs detected)");
    assert_eq!(report.lines[4], "Detected monitors: 2");
    assert_eq!(report.lines[5], "Controlled monitors: 1");
    assert_eq!(report.lines[6], "Last known switch state: controlled monitors on");
    assert_eq!(report.lines[7], "Saved layout coverage: 1/1 controlled monitors");
    assert!(report.lines[8].starts_with("ddcutil: available (timeout "));
    assert!(report.lines[9].starts_with("xrandr: missing (timeout "));
    assert_eq!(report.lines[11], "Tray icon asset: available");
    assert_eq!(report.lines[12], "Autostart: disabled");
    assert_eq!(report.lines[13], "Last command failure: none");
    assert_eq!(report.lines[14], "Log file: /tmp/debug.log");
}

#[test]
fn diagnostics_without_snapshot() {
    let mut f = facts();
    f.backend = Err("no tool".into());
    f.switch_in_progress = true;
    let mut cfg = config();
    cfg.last_quick_switch_state = Some(QuickSwitchState::ControlledMonitorsOff);
    let report = diagnostics_report(&f, None, &cfg);
    assert_eq!(report.lines[0], "Quick switch busy: yes");
    assert_eq!(report.lines[3], "Display backend: unavailable (no tool)");
    assert_eq!(report.lines[4], "Detected monitors: unavailable");
    assert_eq!(report.lines[7], "Saved layout coverage: unavailable");
}

fn meta(name: &str, w: u32, h: u32) -> KwinOutputMeta {
    KwinOutputMeta { connector_name: name.into(), width: w, height: h }
}

fn setup(outputs: Vec<(bool, usize, i32, i32)>) -> KwinSetup {
    KwinSetup {
        outputs: outputs.into_iter().map(|(enabled, output_index, x, y)| KwinSetupOutput { enabled, output_index, x, y }).collect(),
    }
}

#[test]
fn kwin_layout_comes_from_the_matching_setup() {
    let snap = snapshot();
    let metas = vec![meta("eDP-1", 1920, 1200), meta("HDMI-A-1", 2560, 1440), meta("DP-1", 1280, 1024)];
    let setups = vec![
        setup(vec![(true, 0, 0, 0), (true, 2, 1920, 0)]),
        setup(vec![(true, 1, 0, 0), (true, 0, 320, 1440), (false, 2, 0, 0), (true, 9, 0, 0)]),
    ];
    let layout = kwin_saved_layout(&snap, &metas, &setups).unwrap();
    assert_eq!(layout.len(), 2);
    assert_eq!(layout[0].monitor_id, "ext");
    assert_eq!(layout[0].position, (0, 0));
    assert_eq!(layout[0].size, (2560, 1440));
    assert_eq!(layout[1].monitor_id, "int");
    assert_eq!(layout[1].position, (320, 1440));
    assert!(kwin_saved_layout(&snap, &[], &setups).is_none());
    assert!(kwin_saved_layout(&snap, &metas, &setups[..1]).is_none());
}

#[test]
fn saves_kwin_layout_into_settings() {
    let snap = snapshot();
    let metas = vec![meta("eDP-1", 1920, 1200), meta("HDMI-A-1", 2560, 1440)];
    let setups = vec![setup(vec![(true, 1, 0, 0), (true, 0, 320, 1440)])];
    let mut cfg = config();
    let kwin = kwin_saved_layout(&snap, &metas, &setups);
    let message = save_current_layout(&mut cfg, &snap, kwin).unwrap();
    assert_eq!(message, "Saved current layout: HDMI-A-1@0,0 2560x1440, eDP-1@320,1440 1920x1200");
    let int = cfg.settings("int").unwrap();
    assert_eq!((int.saved_position_x, int.saved_position_y), (Some(320), Some(1440)));
    assert_eq!((int.saved_width, int.saved_height), (Some(1920), Some(1200)));
}

#[test]
fn saves_snapshot_positions_or_refuses_overlap() {
    let snap = snapshot();
    let mut cfg = config();
    let message = save_current_layout(&mut cfg, &snap, None).unwrap();
    assert_eq!(message, "Saved current layout: eDP-1@0,1080, HDMI-A-1@0,0");
    let int = cfg.settings("int").unwrap();
    assert_eq!((int.saved_position_x, int.saved_position_y), (Some(0), Some(1080)));
    assert_eq!((int.saved_width, int.saved_height), (Some(1920), Some(1080)));

    let overlapping = MonitorSnapshot {
        monitors: vec![monitor("a", "eDP-1", true, true, Some((0, 0))), monitor("b", "HDMI-A-1", false, true, Some((0, 0)))],
    };
    let mut cfg2 = config();
    assert_eq!(
        save_current_layout(&mut cfg2, &overlapping, None),
        Err("Could not save layout because active monitor positions are incomplete or overlapping.".into())
    );
    assert_eq!(cfg2.monitor_settings.len(), 1);
    let single = MonitorSnapshot { monitors: vec![monitor("a", "eDP-1", true, true, Some((0, 0)))] };
    assert!(save_current_layout(&mut cfg2, &single, None).is_err());
}

#[test]
fn fallback_choices_row_uses_known_inputs() {
    let mut snap = snapshot();
    if let Some(d) = snap.monitors[1].ddc.as_mut() {
        d.supported_inputs = vec![InputSource { value: "0x11".into(), label: "HDMI 1".into() }];
        d.capabilities_known = true;
    }
    let row = settings_monitor_row(&snap.monitors[1], &config(), None);
    assert_eq!(row.available_inputs.len(), 1);
    assert_eq!(row.ddc_status, "DDC/CI: available, inputs detected");
}
