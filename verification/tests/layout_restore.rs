use monitor_toggle_tray::display::{normalize_stacked_primary_position, stacking_fits, DisplayOutput, OutputLayout};
use monitor_toggle_tray::enable::{
    advance_cursor, apply_layouts, cursor_start, kscreen_enable_command, missing_targets_error, plan_enable,
    requested_targets, resolve_targets, sort_by_name, target_position, xrandr_enable_command,
    xrandr_primary_command,
};

fn out(id: &str, name: &str, mode: Option<(u32, u32)>, position: Option<(i32, i32)>) -> DisplayOutput {
    DisplayOutput { id: id.into(), name: name.into(), connected: true, internal: false, current_mode: mode, position, scale: None }
}

fn layout(name: &str, position: Option<(i32, i32)>, size: Option<(u32, u32)>) -> OutputLayout {
    OutputLayout { name: name.into(), position, size }
}

#[test]
fn requests_every_layout_but_the_primary() {
    let layouts = vec![layout("eDP-1", None, None), layout("HDMI-A-1", None, None), layout("DP-1", None, None)];
    assert_eq!(requested_targets("eDP-1", &layouts), vec!["HDMI-A-1".to_string(), "DP-1".to_string()]);
}

#[test]
fn waits_until_primary_and_every_target_is_listed() {
    let requested = vec!["DP-1".to_string(), "HDMI-A-1".to_string()];
    let partial = vec![out("1", "eDP-1", None, None), out("2", "HDMI-A-1", None, None)];
    assert!(resolve_targets("eDP-1", &requested, &partial).is_none());
    let full = vec![out("1", "eDP-1", None, None), out("2", "HDMI-A-1", None, None), out("3", "DP-1", None, None)];
    let resolved = resolve_targets("eDP-1", &requested, &full).unwrap();
    assert_eq!(resolved.iter().map(|o| o.name.as_str()).collect::<Vec<_>>(), vec!["DP-1", "HDMI-A-1"]);
    assert!(resolve_targets("eDP-2", &requested, &full).is_none());
    assert!(resolve_targets("eDP-2", &[], &full).unwrap().is_empty());
}

#[test]
fn names_missing_targets() {
    let requested = vec!["DP-1".to_string(), "HDMI-A-1".to_string(), "DP-2".to_string()];
    let seen = vec![out("2", "HDMI-A-1", None, None)];
    assert_eq!(missing_targets_error(&requested, &seen), "Requested outputs did not reappear in time: DP-1, DP-2");
    assert_eq!(
        missing_targets_error(&["HDMI-A-1".to_string()], &seen),
        "Requested outputs never became available for re-enabling."
    );
}

#[test]
fn applies_the_last_layout_for_each_output() {
    let targets = vec![out("2", "HDMI-A-1", Some((1920, 1080)), Some((5, 5))), out("3", "DP-1", None, Some((7, 7)))];
    let layouts = vec![
        layout("HDMI-A-1", Some((0, 0)), Some((1280, 720))),
        layout("HDMI-A-1", Some((0, -1440)), Some((2560, 1440))),
        layout("DP-1", None, Some((800, 600))),
    ];
    let applied = apply_layouts(&targets, &layouts);
    assert_eq!(applied[0].position, Some((0, -1440)));
    assert_eq!(applied[0].current_mode, Some((2560, 1440)));
    assert_eq!(applied[1].position, Some((7, 7)));
    assert_eq!(applied[1].current_mode, Some((800, 600)));
}

#[test]
fn sorts_targets_by_name_keeping_ties_in_order() {
    let sorted = sort_by_name(vec![out("a", "HDMI-A-1", None, None), out("b", "DP-1", None, None), out("c", "HDMI-A-1", None, None)]);
    assert_eq!(sorted.iter().map(|o| o.id.as_str()).collect::<Vec<_>>(), vec!["b", "a", "c"]);
}

#[test]
fn stacks_primary_against_the_topmost_output() {
    let outputs = vec![out("2", "HDMI-A-1", Some((2560, 1440)), Some((0, 0)))];
    assert!(stacking_fits("eDP-1", Some((0, 1700)), &outputs));
    assert_eq!(normalize_stacked_primary_position("eDP-1", Some((0, 1700)), &outputs), Some((0, 1440)));
    assert_eq!(normalize_stacked_primary_position("eDP-1", Some((0, 5000)), &outputs), Some((0, 5000)));
    assert_eq!(normalize_stacked_primary_position("eDP-1", Some((3000, 2000)), &outputs), Some((3000, 2000)));
    assert_eq!(normalize_stacked_primary_position("eDP-1", None, &outputs), None);
    assert_eq!(normalize_stacked_primary_position("HDMI-A-1", Some((0, 2000)), &outputs), Some((0, 2000)));
}

#[test]
fn builds_kscreen_enable_command_with_cursor() {
    let primary = out("1", "eDP-1", Some((1920, 1200)), None);
    let targets = vec![out("2", "HDMI-A-1", None, None), out("3", "DP-1", None, Some((100, 0))), out("4", "DP-2", None, None)];
    let c = kscreen_enable_command(&primary, Some((0, 1440)), &targets, 1920, &[Some(2560), None, Some(1280)]);
    assert_eq!(c.program, "kscreen-doctor");
    assert_eq!(
        c.args,
        vec![
            "output.2.enable",
            "output.2.position.1920,0",
            "output.3.enable",
            "output.3.position.100,0",
            "output.4.enable",
            "output.4.position.4480,0",
            "output.1.enable",
            "output.1.primary",
            "output.1.position.0,1440",
        ]
    );
    let none = kscreen_enable_command(&primary, None, &[], -50, &[]);
    assert_eq!(none.args, vec!["output.1.enable", "output.1.primary"]);
}

#[test]
fn builds_xrandr_enable_commands_step_by_step() {
    let primary = out("1", "eDP-1", None, None);
    let p = xrandr_primary_command(&primary, Some((0, 1440)));
    assert_eq!(p.program, "xrandr");
    assert_eq!(p.args, vec!["--output", "eDP-1", "--auto", "--primary", "--pos", "0x1440"]);
    assert_eq!(xrandr_primary_command(&primary, None).args, vec!["--output", "eDP-1", "--auto", "--primary"]);
    let t = out("2", "HDMI-A-1", None, None);
    let cursor = cursor_start(-10);
    assert_eq!(cursor, 0);
    assert_eq!(target_position(&t, cursor), (0, 0));
    assert_eq!(xrandr_enable_command(&t, 1920).args, vec!["--output", "HDMI-A-1", "--auto", "--pos", "1920x0"]);
    assert_eq!(advance_cursor(1920, &t, Some(2560)), 4480);
    assert_eq!(advance_cursor(1920, &t, None), 1920);
    let placed = out("3", "DP-1", None, Some((-5, 7)));
    assert_eq!(target_position(&placed, 1920), (-5, 7));
    assert_eq!(advance_cursor(1920, &placed, Some(800)), 1920);
}

#[test]
fn plans_the_enable_step_or_refuses_an_overflowing_position() {
    let resolved = vec![out("3", "HDMI-A-1", None, None), out("2", "DP-1", Some((1920, 1080)), Some((9, 9)))];
    let layouts = vec![layout("HDMI-A-1", Some((0, 0)), Some((2560, 1440)))];
    let (position, ordered) = plan_enable("eDP-1", Some((0, 1700)), &resolved, &layouts).unwrap();
    assert_eq!(position, Some((0, 1440)));
    assert_eq!(ordered.iter().map(|o| o.name.as_str()).collect::<Vec<_>>(), vec!["DP-1", "HDMI-A-1"]);
    assert_eq!(ordered[1].position, Some((0, 0)));

    let far_up = vec![out("2", "HDMI-A-1", Some((2560, 1440)), Some((0, -2_000_000_000)))];
    assert_eq!(
        plan_enable("eDP-1", Some((0, 2_000_000_000)), &far_up, &[]).unwrap_err(),
        "The position of eDP-1 is out of range."
    );
}
