use monitor_toggle_tray::app::{
    controlled_monitors, infer_desired_switch_direction, quick_switch, quick_switch_outcome, resolve_primary,
    sync_config_with_snapshot, InputOutcome, InputStep,
};
use monitor_toggle_tray::config::{AppConfig, MonitorSettings, QuickSwitchState};
use monitor_toggle_tray::monitor::{DdcMonitorInfo, MonitorInfo, MonitorSnapshot};

fn test_config(last_quick_switch_state: Option<QuickSwitchState>) -> AppConfig {
    AppConfig {
        primary_monitor_id: None,
        last_quick_switch_state,
        monitor_settings: vec![MonitorSettings {
            monitor_id: "external:HDMI-A-1".into(),
            display_name: "Dell".into(),
            include_in_quick_switch: true,
            laptop_input: None,
            toggle_input: None,
            saved_position_x: None,
            saved_position_y: None,
            saved_width: None,
            saved_height: None,
        }],
    }
}

fn snapshot_with_controlled_active(active: bool) -> MonitorSnapshot {
    MonitorSnapshot {
        monitors: vec![
            MonitorInfo {
                id: "internal:eDP-1".into(),
                display_name: "Built-in display".into(),
                output_name: "eDP-1".into(),
                connected: true,
                active: true,
                internal: true,
                position: Some((0, 0)),
                current_mode: Some((1920, 1080)),
                ddc: None,
            },
            MonitorInfo {
                id: "external:HDMI-A-1".into(),
                display_name: "Dell".into(),
                output_name: "HDMI-A-1".into(),
                connected: true,
                active,
                internal: false,
                position: Some((0, 0)),
                current_mode: if active { Some((2560, 1440)) } else { None },
                ddc: None,
            },
        ],
    }
}

#[test]
fn resolve_primary_prefers_connected_configured_monitor() {
    let mut config = test_config(None);
    config.primary_monitor_id = Some("external:HDMI-A-1".into());
    let resolved = resolve_primary(&snapshot_with_controlled_active(true), &config).map(|monitor| monitor.id);
    assert_eq!(resolved, Some("external:HDMI-A-1".into()));
}

#[test]
fn sync_config_preserves_connected_primary_selection() {
    let mut config = test_config(None);
    config.primary_monitor_id = Some("external:HDMI-A-1".into());
    sync_config_with_snapshot(&mut config, &snapshot_with_controlled_active(true));
    assert_eq!(config.primary_monitor_id, Some("external:HDMI-A-1".into()));
}

#[test]
fn infers_switch_direction_from_active_controlled_monitors() {
    let config = test_config(None);
    let snapshot = snapshot_with_controlled_active(true);
    let controlled = controlled_monitors(&snapshot, &config);
    assert_eq!(
        infer_desired_switch_direction(&config, &snapshot, &controlled),
        QuickSwitchState::ControlledMonitorsOff
    );
}

#[test]
fn defaults_to_turning_monitors_on_when_all_controlled_outputs_are_off() {
    let config = test_config(Some(QuickSwitchState::ControlledMonitorsOff));
    let snapshot = snapshot_with_controlled_active(false);
    let controlled = controlled_monitors(&snapshot, &config);
    assert_eq!(
        infer_desired_switch_direction(&config, &snapshot, &controlled),
        QuickSwitchState::ControlledMonitorsOn
    );
}

#[test]
fn resolve_primary_falls_back_to_internal_when_configured_is_missing() {
    let mut config = test_config(None);
    config.primary_monitor_id = Some("external:DP-9".into());
    let resolved = resolve_primary(&snapshot_with_controlled_active(true), &config).map(|monitor| monitor.id);
    assert_eq!(resolved, Some("internal:eDP-1".into()));
}

#[test]
fn sync_gives_every_monitor_settings_and_keeps_laptop_input() {
    let mut config = test_config(None);
    config.monitor_settings[0].laptop_input = Some("0x0f".into());
    sync_config_with_snapshot(&mut config, &snapshot_with_controlled_active(true));
    assert_eq!(config.primary_monitor_id, Some("internal:eDP-1".into()));
    assert!(config.settings("internal:eDP-1").is_some());
    assert_eq!(config.settings("external:HDMI-A-1").unwrap().laptop_input, Some("0x0f".into()));
}

#[test]
fn controlled_monitors_exclude_internal_and_unincluded() {
    let config = test_config(None);
    let snapshot = snapshot_with_controlled_active(true);
    let controlled = controlled_monitors(&snapshot, &config);
    assert_eq!(controlled.len(), 1);
    assert_eq!(controlled[0].id, "external:HDMI-A-1");
}

#[test]
fn no_controlled_active_and_no_record_follows_the_external_state() {
    let config = test_config(None);
    let snapshot = snapshot_with_controlled_active(false);
    let controlled = controlled_monitors(&snapshot, &config);
    assert_eq!(
        infer_desired_switch_direction(&config, &snapshot, &controlled),
        QuickSwitchState::ControlledMonitorsOn
    );
}

fn uncontrolled_external(active: bool) -> MonitorInfo {
    MonitorInfo {
        id: "external:DP-2".into(),
        display_name: "LG".into(),
        output_name: "DP-2".into(),
        connected: true,
        active,
        internal: false,
        position: Some((2560, 0)),
        current_mode: if active { Some((1920, 1080)) } else { None },
        ddc: None,
    }
}

#[test]
fn turns_monitors_on_when_none_controlled_is_active_even_with_other_externals_on() {
    let config = test_config(None);
    let mut snapshot = snapshot_with_controlled_active(false);
    snapshot.monitors.push(uncontrolled_external(true));
    let controlled = controlled_monitors(&snapshot, &config);
    assert_eq!(controlled.len(), 1);
    assert_eq!(
        infer_desired_switch_direction(&config, &snapshot, &controlled),
        QuickSwitchState::ControlledMonitorsOn
    );
}

#[test]
fn quick_switch_refuses_busy_no_primary_and_empty_selection() {
    let config = test_config(None);
    let snapshot = snapshot_with_controlled_active(true);
    assert_eq!(quick_switch(true, &snapshot, &config).unwrap_err(), "A quick switch is already running.");
    assert_eq!(
        quick_switch(false, &MonitorSnapshot { monitors: vec![] }, &config).unwrap_err(),
        "No primary display is currently available."
    );
    let mut none_selected = test_config(None);
    none_selected.monitor_settings[0].include_in_quick_switch = false;
    assert_eq!(
        quick_switch(false, &snapshot, &none_selected).unwrap_err(),
        "No external monitors are selected for quick switch."
    );
}

#[test]
fn quick_switch_outcome_counts_inputs_and_orders_notes() {
    let mut config = test_config(None);
    config.monitor_settings[0].toggle_input = Some("0x12".into());
    let mut snapshot = snapshot_with_controlled_active(true);
    snapshot.monitors[1].ddc = Some(DdcMonitorInfo {
        display_number: 1,
        current_input: Some("0x11".into()),
        supported_inputs: vec![],
        capabilities_known: false,
        input_switching_supported: true,
    });
    let plan = quick_switch(false, &snapshot, &config).unwrap();
    assert_eq!(plan.direction, QuickSwitchState::ControlledMonitorsOff);
    assert_eq!(plan.controlled.len(), 1);
    assert!(matches!(&plan.steps[0], InputStep::Switch { display_number: 1, input } if input == "0x12"));

    let report = quick_switch_outcome(&plan, Err("timed out".into()), vec![InputOutcome::Unverified("no reply".into())]);
    assert_eq!(report.state, QuickSwitchState::ControlledMonitorsOff);
    assert!(report.layout_changed);
    assert_eq!((report.controlled_monitors, report.output_count), (1, 1));
    assert_eq!((report.input_attempts, report.switched_inputs), (1, 1));
    assert_eq!(
        report.notes,
        vec![
            "layout verification after disable: timed out".to_string(),
            "Dell: switch command sent but verification failed: no reply".to_string(),
        ]
    );

    let failed = quick_switch_outcome(&plan, Ok(()), vec![InputOutcome::Failed("bus error".into())]);
    assert_eq!((failed.input_attempts, failed.switched_inputs), (1, 0));
    assert_eq!(failed.notes, vec!["Dell: bus error".to_string()]);
}

#[test]
fn sync_renames_and_takes_current_input_as_laptop_input() {
    let mut config = test_config(Some(QuickSwitchState::ControlledMonitorsOn));
    let mut snapshot = snapshot_with_controlled_active(true);
    snapshot.monitors[1].display_name = "Dell U2720Q".into();
    snapshot.monitors[1].ddc = Some(DdcMonitorInfo {
        display_number: 1,
        current_input: Some("0x11".into()),
        supported_inputs: vec![],
        capabilities_known: false,
        input_switching_supported: true,
    });
    sync_config_with_snapshot(&mut config, &snapshot);
    let settings = config.settings("external:HDMI-A-1").unwrap();
    assert_eq!(settings.display_name, "Dell U2720Q");
    assert_eq!(settings.laptop_input, Some("0x11".into()));
    assert_eq!(config.settings("internal:eDP-1").unwrap().laptop_input, None);
    assert_eq!(config.last_quick_switch_state, Some(QuickSwitchState::ControlledMonitorsOn));
}
