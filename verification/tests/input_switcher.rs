use monitor_toggle_tray::display::{DisplayBackend, DisplayOutput};
use monitor_toggle_tray::switcher::{
    anchor_only_commands, detect_display_pair, detect_internal_anchor, is_transient_hdmi1_layout_error,
    is_transient_hdmi2_layout_error, laptop_only_check, laptop_only_finalized, laptop_only_next, laptop_only_outcome, laptop_only_start,
    positioned_command, provisional_command, retry_extend, saved_hdmi1_layout_positions, saved_layout_command,
    selected_menu_index, switch_input_label, target_label, xrandr_extend_commands, DisplayPair, LaptopOnlyCheck,
    LaptopOnlyNext, LaptopOnlyProgress, SwitchTarget,
};

fn output(id: &str, name: &str, connected: bool, internal: bool, mode: Option<(u32, u32)>) -> DisplayOutput {
    DisplayOutput { id: id.into(), name: name.into(), connected, internal, current_mode: mode, position: None, scale: None }
}

fn pair(anchor: &str, external: &str) -> DisplayPair {
    DisplayPair { anchor: output("1", anchor, true, true, Some((1920, 1200))), external: output("2", external, true, false, None) }
}

#[test]
fn names_targets_and_menu_entries() {
    assert_eq!(SwitchTarget::Hdmi1.value(), "0x11");
    assert_eq!(SwitchTarget::Hdmi2.value(), "0x12");
    assert_eq!(target_label(SwitchTarget::Hdmi2), "HDMI 2");
    assert_eq!(switch_input_label("0x11"), "HDMI 1");
    assert_eq!(switch_input_label("0x0f"), "Unknown input");
    assert_eq!(selected_menu_index(Some("0x12")), 1);
    assert_eq!(selected_menu_index(Some("0x11")), 0);
    assert_eq!(selected_menu_index(None), 0);
}

#[test]
fn pairs_anchor_and_external_outputs() {
    let outputs = vec![output("1", "eDP-1", true, true, None), output("2", "HDMI-A-1", false, false, None)];
    let p = detect_display_pair(DisplayBackend::KscreenDoctor, &outputs).unwrap();
    assert_eq!(p.anchor.name, "eDP-1");
    assert_eq!(p.external.name, "HDMI-A-1");
    assert_eq!(
        detect_display_pair(DisplayBackend::Xrandr, &outputs).err(),
        Some("Could not find a connected secondary display.".to_string())
    );
    assert_eq!(
        detect_display_pair(DisplayBackend::Xrandr, &[]).err(),
        Some("Could not find any active display output.".to_string())
    );
    assert_eq!(
        detect_internal_anchor(&[output("2", "HDMI-A-1", true, false, None)]).err(),
        Some("Could not find the laptop's internal display.".to_string())
    );
}

#[test]
fn uses_the_saved_layout_for_the_usual_setup() {
    assert_eq!(saved_hdmi1_layout_positions(&pair("eDP-1", "HDMI-A-1")), Some(((0, 0), (459, 1440))));
    assert_eq!(saved_hdmi1_layout_positions(&pair("eDP-1", "DP-1")), None);
    let c = saved_layout_command(&pair("eDP-1", "HDMI-A-1")).unwrap();
    assert_eq!(
        c.args,
        vec!["output.2.enable", "output.2.position.0,0", "output.1.enable", "output.1.primary", "output.1.position.459,1440"]
    );
    assert!(saved_layout_command(&pair("eDP-2", "HDMI-A-1")).is_none());
}

#[test]
fn extends_in_two_kscreen_steps() {
    let p = pair("eDP-2", "HDMI-A-1");
    let first = provisional_command(&p, Some((1920, 1200))).unwrap();
    assert_eq!(
        first.args,
        vec!["output.1.enable", "output.1.primary", "output.1.position.0,0", "output.2.enable", "output.2.position.0,1200"]
    );
    let second = positioned_command(&p, Some((2560, 1440))).unwrap();
    assert_eq!(
        second.args,
        vec!["output.2.enable", "output.2.position.0,0", "output.1.enable", "output.1.primary", "output.1.position.0,1440"]
    );
    assert_eq!(provisional_command(&p, None).err(), Some("Could not determine laptop display mode.".to_string()));
    assert_eq!(positioned_command(&p, None).err(), Some("Could not determine secondary display mode.".to_string()));
    let x = xrandr_extend_commands(&p);
    assert_eq!(x[0].args, vec!["--output", "eDP-2", "--auto", "--primary"]);
    assert_eq!(x[1].args, vec!["--output", "HDMI-A-1", "--auto", "--above", "eDP-2"]);
}

#[test]
fn leaves_only_the_anchor_on() {
    let anchor = output("1", "eDP-1", true, true, Some((1920, 1200)));
    let outputs = vec![anchor.clone_for_test(), output("2", "HDMI-A-1", true, false, None)];
    let k = anchor_only_commands(DisplayBackend::KscreenDoctor, &anchor, &outputs);
    assert_eq!(k.len(), 1);
    assert_eq!(k[0].args, vec!["output.1.enable", "output.1.primary", "output.1.position.0,0", "output.2.disable"]);
    let x = anchor_only_commands(DisplayBackend::Xrandr, &anchor, &outputs);
    assert_eq!(x.len(), 2);
    assert_eq!(x[0].args, vec!["--output", "HDMI-A-1", "--off", "--fb", "1920x1200"]);
    assert_eq!(x[1].args, vec!["--output", "eDP-1", "--auto", "--primary"]);
    let bare = output("1", "eDP-1", true, true, None);
    let only = anchor_only_commands(DisplayBackend::Xrandr, &bare, &[output("1", "eDP-1", true, true, None)]);
    assert_eq!(only.len(), 1);
}

trait CloneForTest {
    fn clone_for_test(&self) -> Self;
}

impl CloneForTest for DisplayOutput {
    fn clone_for_test(&self) -> Self {
        DisplayOutput {
            id: self.id.clone(),
            name: self.name.clone(),
            connected: self.connected,
            internal: self.internal,
            current_mode: self.current_mode,
            position: self.position,
            scale: self.scale.clone(),
        }
    }
}

#[test]
fn retries_only_transient_errors() {
    assert!(is_transient_hdmi1_layout_error("xrandr: BadMatch (invalid parameter attributes)"));
    assert!(!is_transient_hdmi1_layout_error("permission denied"));
    assert!(is_transient_hdmi2_layout_error("Could not find the laptop's internal display."));
    assert!(!is_transient_hdmi2_layout_error("Could not find a connected secondary display."));
    assert!(retry_extend(0, "cannot find mode 1920x1080"));
    assert!(!retry_extend(9, "cannot find mode 1920x1080"));
}

#[test]
fn laptop_only_layout_settles_after_quiet_checks() {
    let start = laptop_only_start(DisplayBackend::KscreenDoctor);
    assert_eq!(start, LaptopOnlyProgress { stable_checks: 0, finalized_topology_disable: false });
    let with_external = vec![output("1", "eDP-1", true, true, Some((1920, 1200))), output("2", "HDMI-A-1", true, false, Some((2560, 1440)))];
    assert_eq!(laptop_only_check(start, DisplayBackend::KscreenDoctor, &with_external).1, LaptopOnlyCheck::Reapply);
    let two_listed = vec![output("1", "eDP-1", true, true, Some((1920, 1200))), output("2", "HDMI-A-1", false, false, None)];
    assert_eq!(laptop_only_check(start, DisplayBackend::KscreenDoctor, &two_listed).1, LaptopOnlyCheck::Finalize);
    let done = LaptopOnlyProgress { stable_checks: 2, finalized_topology_disable: true };
    let (next, check) = laptop_only_check(done, DisplayBackend::KscreenDoctor, &two_listed);
    assert_eq!(check, LaptopOnlyCheck::Quiet);
    assert_eq!(next.stable_checks, 3);
    assert_eq!(laptop_only_start(DisplayBackend::Xrandr).finalized_topology_disable, true);
    assert_eq!(laptop_only_next(3, 4, &Ok(())), LaptopOnlyNext::Done);
    assert_eq!(laptop_only_next(3, 1, &Ok(())), LaptopOnlyNext::Retry);
    assert_eq!(laptop_only_next(9, 1, &Ok(())), LaptopOnlyNext::OutOfAttempts);
    assert_eq!(laptop_only_next(2, 0, &Err("BadMatch".into())), LaptopOnlyNext::Retry);
    assert_eq!(laptop_only_next(2, 0, &Err("denied".into())), LaptopOnlyNext::Fail("denied".into()));
    assert_eq!(laptop_only_outcome(1, "e".into()), Ok(()));
    assert_eq!(laptop_only_outcome(0, "e".into()), Err("e".into()));
    assert_eq!(
        laptop_only_finalized(start, &Ok(())),
        LaptopOnlyProgress { stable_checks: 0, finalized_topology_disable: true }
    );
    assert_eq!(laptop_only_finalized(start, &Err("busy".into())), start);
}
