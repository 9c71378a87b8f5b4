//! What the settings window shows: one row per monitor, the status line and
//! the diagnostics.
use crate::app::{
    controlled_monitors, controlled_spec, current_switch_state, default_command_timeout,
    duration_text, format_duration, inferred_state, quick_switch_state_label, resolve_primary,
    primary_choice, state_label, timeout_ms, chosen,
};
use crate::config::{lookup, AppConfig, ConfigView, MonitorSettingsView};
use crate::display::DisplayBackend;
use crate::monitor::{
    copy_inputs, fallback_input_choices, fallback_inputs_spec, inputs_view, text_opt, DdcView,
    InputSource, MonitorInfo, MonitorSnapshot, MonitorView,
};
use crate::text::{chars_of, dec, push_dec, push_str, to_string, views};
use vstd::prelude::*;

verus! {

/// One monitor as the settings window lists it.
#[derive(Debug)]
pub struct SettingsMonitorView {
    pub id: String,
    pub display_name: String,
    pub output_name: String,
    pub connected: bool,
    pub active: bool,
    pub internal: bool,
    pub is_primary: bool,
    pub include_in_quick_switch: bool,
    pub laptop_input: Option<String>,
    pub toggle_input: Option<String>,
    pub current_input: Option<String>,
    pub available_inputs: Vec<InputSource>,
    pub ddc_status: String,
}

/// What the settings window shows.
#[derive(Debug)]
pub struct SettingsView {
    pub primary_monitor_id: Option<String>,
    pub autostart_enabled: bool,
    pub status_text: String,
    pub diagnostics: Vec<String>,
    pub monitors: Vec<SettingsMonitorView>,
}

/// The lines of the diagnostics section.
#[derive(Debug, PartialEq, Eq)]
pub struct DiagnosticsReport {
    pub lines: Vec<String>,
}

/// A row as values.
pub struct RowView {
    pub id: Seq<char>,
    pub display_name: Seq<char>,
    pub output_name: Seq<char>,
    pub connected: bool,
    pub active: bool,
    pub internal: bool,
    pub is_primary: bool,
    pub include_in_quick_switch: bool,
    pub laptop_input: Option<Seq<char>>,
    pub toggle_input: Option<Seq<char>>,
    pub current_input: Option<Seq<char>>,
    pub available_inputs: Seq<(Seq<char>, Seq<char>)>,
    pub ddc_status: Seq<char>,
}

impl View for SettingsMonitorView {
    type V = RowView;

    open spec fn view(&self) -> RowView {
        RowView {
            id: self.id@,
            display_name: self.display_name@,
            output_name: self.output_name@,
            connected: self.connected,
            active: self.active,
            internal: self.internal,
            is_primary: self.is_primary,
            include_in_quick_switch: self.include_in_quick_switch,
            laptop_input: text_opt(self.laptop_input),
            toggle_input: text_opt(self.toggle_input),
            current_input: text_opt(self.current_input),
            available_inputs: inputs_view(self.available_inputs@),
            ddc_status: self.ddc_status@,
        }
    }
}

pub open spec fn rows_view(v: Seq<SettingsMonitorView>) -> Seq<RowView> {
    v.map_values(|r: SettingsMonitorView| r@)
}

/// The DDC/CI line of a monitor.
pub open spec fn ddc_status_spec(d: Option<DdcView>) -> Seq<char> {
    match d {
        Some(d) => "DDC/CI: "@ + (if d.input_switching_supported { "available"@ } else { "limited"@ }) + (if d.capabilities_known {
            ", inputs detected"@
        } else {
            ", using fallback choices"@
        }),
        None => "DDC/CI: unavailable"@,
    }
}

/// The inputs offered for a monitor: those it supports, else the common
/// fallback choices; none without DDC/CI.
pub open spec fn available_inputs_spec(d: Option<DdcView>) -> Seq<(Seq<char>, Seq<char>)> {
    match d {
        Some(d) => if d.supported_inputs.len() == 0 {
            fallback_inputs_spec(d.current_input)
        } else {
            d.supported_inputs
        },
        None => Seq::empty(),
    }
}

/// The row of a monitor, given the settings and the primary display's id.
pub open spec fn row_spec(m: MonitorView, settings: Seq<MonitorSettingsView>, primary_id: Option<Seq<char>>) -> RowView {
    let s = lookup(settings, m.id);
    RowView {
        id: m.id,
        display_name: m.display_name,
        output_name: m.output_name,
        connected: m.connected,
        active: m.active,
        internal: m.internal,
        is_primary: primary_id == Some(m.id),
        include_in_quick_switch: s matches Some(s) && s.include_in_quick_switch,
        laptop_input: match s {
            Some(s) => s.laptop_input,
            None => None,
        },
        toggle_input: match s {
            Some(s) => s.toggle_input,
            None => None,
        },
        current_input: match m.ddc {
            Some(d) => d.current_input,
            None => None,
        },
        available_inputs: available_inputs_spec(m.ddc),
        ddc_status: ddc_status_spec(m.ddc),
    }
}

fn clone_opt(o: &Option<String>) -> (r: Option<String>)
    ensures
        r == *o,
{
    match o {
        Some(s) => Some(s.clone()),
        None => None,
    }
}

fn ddc_status_text(m: &MonitorInfo) -> (r: String)
    ensures
        r@ == ddc_status_spec(m@.ddc),
{
    match &m.ddc {
        Some(d) => {
            let mut v = chars_of("DDC/CI: ");
            if d.input_switching_supported {
                push_str(&mut v, "available");
            } else {
                push_str(&mut v, "limited");
            }
            if d.capabilities_known {
                push_str(&mut v, ", inputs detected");
            } else {
                push_str(&mut v, ", using fallback choices");
            }
            to_string(v.as_slice())
        },
        None => String::from_str("DDC/CI: unavailable"),
    }
}

/// The row of a monitor in the settings window.
pub fn settings_monitor_row(m: &MonitorInfo, config: &AppConfig, primary_id: Option<&String>) -> (r: SettingsMonitorView)
    ensures
        r@ == row_spec(m@, config@.monitor_settings, match primary_id {
            Some(p) => Some(p@),
            None => None,
        }),
{
    let s = config.settings(m.id.as_str());
    let available_inputs = match &m.ddc {
        Some(d) => {
            if d.supported_inputs.len() == 0 {
                match &d.current_input {
                    Some(c) => fallback_input_choices(Some(c.as_str())),
                    None => fallback_input_choices(None),
                }
            } else {
                copy_inputs(&d.supported_inputs)
            }
        },
        None => Vec::new(),
    };
    assert(m@.ddc is None ==> inputs_view(available_inputs@) =~= Seq::<(Seq<char>, Seq<char>)>::empty());
    let is_primary = match primary_id {
        Some(p) => *p == m.id,
        None => false,
    };
    SettingsMonitorView {
        id: m.id.clone(),
        display_name: m.display_name.clone(),
        output_name: m.output_name.clone(),
        connected: m.connected,
        active: m.active,
        internal: m.internal,
        is_primary,
        include_in_quick_switch: match s {
            Some(s) => s.include_in_quick_switch,
            None => false,
        },
        laptop_input: match s {
            Some(s) => clone_opt(&s.laptop_input),
            None => None,
        },
        toggle_input: match s {
            Some(s) => clone_opt(&s.toggle_input),
            None => None,
        },
        current_input: match &m.ddc {
            Some(d) => clone_opt(&d.current_input),
            None => None,
        },
        available_inputs,
        ddc_status: ddc_status_text(m),
    }
}

/// What the settings window shows for a snapshot: the resolved primary
/// display, one row per monitor in snapshot order, and the given autostart
/// state, status line and diagnostics.
pub fn load_settings_view(
    snapshot: &MonitorSnapshot,
    config: &AppConfig,
    autostart_enabled: bool,
    status_text: String,
    diagnostics: Vec<String>,
) -> (r: SettingsView)
    ensures
        match primary_choice(snapshot@, config@.primary_monitor_id) {
            Some(i) => r.primary_monitor_id matches Some(p) && p@ == snapshot@[i].id,
            None => r.primary_monitor_id is None,
        },
        r.autostart_enabled == autostart_enabled,
        r.status_text@ == status_text@,
        r.diagnostics@ == diagnostics@,
        rows_view(r.monitors@) == snapshot@.map_values(|m: MonitorView| row_spec(m, config@.monitor_settings, text_opt(r.primary_monitor_id))),
{
    let primary = resolve_primary(snapshot, config);
    let primary_id: Option<String> = match primary {
        Some(p) => Some(p.id),
        None => None,
    };
    let ghost want = snapshot@.map_values(|m: MonitorView| row_spec(m, config@.monitor_settings, text_opt(primary_id)));
    let mut rows: Vec<SettingsMonitorView> = Vec::new();
    let mut i: usize = 0;
    while i < snapshot.monitors.len()
        invariant
            want == snapshot@.map_values(|m: MonitorView| row_spec(m, config@.monitor_settings, text_opt(primary_id))),
            i <= snapshot.monitors@.len(),
            rows_view(rows@) == want.subrange(0, i as int),
        decreases snapshot.monitors@.len() - i,
    {
        let row = settings_monitor_row(&snapshot.monitors[i], config, primary_id.as_ref());
        assert(snapshot@[i as int] == snapshot.monitors@[i as int]@);
        let ghost before = rows_view(rows@);
        rows.push(row);
        assert(rows_view(rows@) =~= before.push(want[i as int]));
        assert(want.subrange(0, i + 1) =~= want.subrange(0, i as int).push(want[i as int]));
        i += 1;
    }
    assert(want.subrange(0, snapshot.monitors@.len() as int) =~= want);
    SettingsView {
        primary_monitor_id: primary_id,
        autostart_enabled,
        status_text,
        diagnostics,
        monitors: rows,
    }
}

// ---------------------------------------------------------------------------
// Diagnostics
// ---------------------------------------------------------------------------

/// What the diagnostics report from outside the library: the clock readings,
/// the display backend found, which tools are installed, and so on.
#[derive(Debug)]
pub struct DiagnosticsFacts {
    pub switch_in_progress: bool,
    pub snapshot_age_ms: Option<u64>,
    pub ddc_monitor_count: u64,
    pub ddc_discovery_age_ms: Option<u64>,
    pub ddc_input_age_ms: Option<u64>,
    /// The backend and the number of outputs it found, or why none was found.
    pub backend: Result<(DisplayBackend, u64), String>,
    pub ddcutil_available: bool,
    pub xrandr_available: bool,
    pub kscreen_doctor_available: bool,
    pub tray_icon_available: bool,
    pub autostart_enabled: bool,
    pub last_command_failure: Option<String>,
    pub log_file: String,
}

/// An age, or `empty` when there is none.
pub open spec fn age_text(age: Option<u64>) -> Seq<char> {
    match age {
        Some(ms) => duration_text(ms),
        None => "empty"@,
    }
}

pub open spec fn backend_name(b: DisplayBackend) -> Seq<char> {
    match b {
        DisplayBackend::KscreenDoctor => "KscreenDoctor"@,
        DisplayBackend::Xrandr => "Xrandr"@,
    }
}

pub open spec fn yes_no(b: bool, yes: Seq<char>, no: Seq<char>) -> Seq<char> {
    if b { yes } else { no }
}

/// A controlled monitor has a full saved layout: position and size.
pub open spec fn has_saved_layout(settings: Seq<MonitorSettingsView>, m: MonitorView) -> bool {
    lookup(settings, m.id) matches Some(s) && s.saved_position_x is Some && s.saved_position_y is Some
        && s.saved_width is Some && s.saved_height is Some
}

/// How many of the monitors have a full saved layout.
pub open spec fn saved_count(v: Seq<MonitorView>, settings: Seq<MonitorSettingsView>) -> nat
    decreases v.len(),
{
    if v.len() == 0 {
        0
    } else {
        saved_count(v.drop_last(), settings) + if has_saved_layout(settings, v.last()) { 1nat } else { 0nat }
    }
}

/// The lines about the monitors, or that they are unavailable.
pub open spec fn monitor_lines(snapshot: Option<Seq<MonitorView>>, cfg: ConfigView) -> Seq<Seq<char>> {
    match snapshot {
        Some(v) => {
            let controlled = controlled_spec(v, cfg.monitor_settings);
            let state = match cfg.last_quick_switch_state {
                Some(s) => s,
                None => inferred_state(v),
            };
            seq![
                "Detected monitors: "@ + dec(v.len()),
                "Controlled monitors: "@ + dec(controlled.len()),
                "Last known switch state: "@ + state_label(state),
                "Saved layout coverage: "@ + dec(saved_count(controlled, cfg.monitor_settings)) + "/"@ + dec(controlled.len())
                    + " controlled monitors"@,
            ]
        },
        None => seq![
            "Detected monitors: unavailable"@,
            "Controlled monitors: unavailable"@,
            "Last known switch state: unavailable"@,
            "Saved layout coverage: unavailable"@,
        ],
    }
}

/// The line about one command-line tool.
pub open spec fn tool_line(program: Seq<char>, available: bool) -> Seq<char> {
    program + ": "@ + yes_no(available, "available"@, "missing"@) + " (timeout "@ + duration_text(timeout_ms(program, Seq::empty()))
        + ")"@
}

/// The first lines of the diagnostics: busy flag, cache ages, backend.
pub open spec fn head_lines(f: DiagnosticsFacts) -> Seq<Seq<char>> {
    seq![
        "Quick switch busy: "@ + yes_no(f.switch_in_progress, "yes"@, "no"@),
        "Monitor snapshot cache age: "@ + age_text(f.snapshot_age_ms),
        "DDC cache: "@ + dec(f.ddc_monitor_count as nat) + " monitors, discovery age "@ + age_text(f.ddc_discovery_age_ms)
            + ", input age "@ + age_text(f.ddc_input_age_ms),
        match f.backend {
            Ok((b, n)) => "Display backend: "@ + backend_name(b) + " ("@ + dec(n as nat) + " outputs detected)"@,
            Err(e) => "Display backend: "@ + "unavailable ("@ + e@ + ")"@,
        },
    ]
}

/// The last lines of the diagnostics: tools, icon, autostart, last failure, log file.
pub open spec fn tail_lines(f: DiagnosticsFacts) -> Seq<Seq<char>> {
    seq![
        tool_line("ddcutil"@, f.ddcutil_available),
        tool_line("xrandr"@, f.xrandr_available),
        tool_line("kscreen-doctor"@, f.kscreen_doctor_available),
        "Tray icon asset: "@ + yes_no(f.tray_icon_available, "available"@, "missing"@),
        "Autostart: "@ + yes_no(f.autostart_enabled, "enabled"@, "disabled"@),
        "Last command failure: "@ + match f.last_command_failure {
            Some(e) => e@,
            None => "none"@,
        },
        "Log file: "@ + f.log_file@,
    ]
}

/// The diagnostics lines, in order.
pub open spec fn diagnostics_spec(f: DiagnosticsFacts, snapshot: Option<Seq<MonitorView>>, cfg: ConfigView) -> Seq<Seq<char>> {
    head_lines(f) + monitor_lines(snapshot, cfg) + tail_lines(f)
}

fn push_line(lines: &mut Vec<String>, line: String)
    ensures
        views(final(lines)@) == views(old(lines)@).push(line@),
{
    let ghost before = views(lines@);
    lines.push(line);
    assert(views(lines@) =~= before.push(line@));
}

fn push_age(v: &mut Vec<char>, age: Option<u64>)
    ensures
        final(v)@ == old(v)@ + age_text(age),
{
    match age {
        Some(ms) => {
            let t = format_duration(ms);
            push_str(v, t.as_str());
        },
        None => push_str(v, "empty"),
    }
}

fn line_of(prefix: &str, rest: &str) -> (r: String)
    ensures
        r@ == prefix@ + rest@,
{
    let mut v = chars_of(prefix);
    push_str(&mut v, rest);
    to_string(v.as_slice())
}

fn count_line(prefix: &str, n: u64) -> (r: String)
    ensures
        r@ == prefix@ + dec(n as nat),
{
    let mut v = chars_of(prefix);
    push_dec(&mut v, n);
    to_string(v.as_slice())
}

fn tool_line_exec(program: &str, available: bool) -> (r: String)
    ensures
        r@ == tool_line(program@, available),
{
    let mut v = chars_of(program);
    push_str(&mut v, ": ");
    push_str(&mut v, if available { "available" } else { "missing" });
    push_str(&mut v, " (timeout ");
    let t = format_duration(default_command_timeout(program));
    push_str(&mut v, t.as_str());
    push_str(&mut v, ")");
    assert(v@ =~= tool_line(program@, available));
    to_string(v.as_slice())
}

fn saved_count_exec(controlled: &Vec<MonitorInfo>, config: &AppConfig) -> (r: u64)
    ensures
        r as nat == saved_count(crate::monitor::monitors_view(controlled@), config@.monitor_settings),
{
    let ghost v = crate::monitor::monitors_view(controlled@);
    let mut n: u64 = 0;
    let mut i: usize = 0;
    assert(v.subrange(0, 0) =~= Seq::<MonitorView>::empty());
    while i < controlled.len()
        invariant
            v == crate::monitor::monitors_view(controlled@),
            i <= v.len(),
            n as nat == saved_count(v.subrange(0, i as int), config@.monitor_settings),
            n <= i,
        decreases v.len() - i,
    {
        let ghost w = v.subrange(0, i + 1);
        assert(w.drop_last() =~= v.subrange(0, i as int));
        assert(w.last() == controlled@[i as int]@);
        let m = &controlled[i];
        let full = match config.settings(m.id.as_str()) {
            Some(s) => s.saved_position_x.is_some() && s.saved_position_y.is_some() && s.saved_width.is_some()
                && s.saved_height.is_some(),
            None => false,
        };
        if full {
            n += 1;
        }
        i += 1;
    }
    assert(v.subrange(0, v.len() as int) =~= v);
    n
}

fn head_lines_exec(facts: &DiagnosticsFacts) -> (r: Vec<String>)
    ensures
        views(r@) == head_lines(*facts),
{
    let mut lines: Vec<String> = Vec::new();
    push_line(&mut lines, line_of("Quick switch busy: ", if facts.switch_in_progress { "yes" } else { "no" }));
    let mut a = chars_of("Monitor snapshot cache age: ");
    push_age(&mut a, facts.snapshot_age_ms);
    push_line(&mut lines, to_string(a.as_slice()));
    let mut d = chars_of("DDC cache: ");
    push_dec(&mut d, facts.ddc_monitor_count);
    push_str(&mut d, " monitors, discovery age ");
    push_age(&mut d, facts.ddc_discovery_age_ms);
    push_str(&mut d, ", input age ");
    push_age(&mut d, facts.ddc_input_age_ms);
    push_line(&mut lines, to_string(d.as_slice()));
    let mut b = chars_of("Display backend: ");
    match &facts.backend {
        Ok((backend, n)) => {
            push_str(&mut b, match backend {
                DisplayBackend::KscreenDoctor => "KscreenDoctor",
                DisplayBackend::Xrandr => "Xrandr",
            });
            push_str(&mut b, " (");
            push_dec(&mut b, *n);
            push_str(&mut b, " outputs detected)");
        },
        Err(e) => {
            push_str(&mut b, "unavailable (");
            push_str(&mut b, e.as_str());
            push_str(&mut b, ")");
        },
    }
    push_line(&mut lines, to_string(b.as_slice()));
    assert(views(lines@) =~= head_lines(*facts));
    lines
}

fn monitor_lines_exec(snapshot: Option<&MonitorSnapshot>, config: &AppConfig) -> (r: Vec<String>)
    ensures
        views(r@) == monitor_lines(match snapshot {
            Some(s) => Some(s@),
            None => None,
        }, config@),
{
    let mut lines: Vec<String> = Vec::new();
    match snapshot {
        Some(snap) => {
            let controlled = controlled_monitors(snap, config);
            push_line(&mut lines, count_line("Detected monitors: ", snap.monitors.len() as u64));
            push_line(&mut lines, count_line("Controlled monitors: ", controlled.len() as u64));
            let state = match current_switch_state(config, snap) {
                Some(s) => s,
                None => crate::config::QuickSwitchState::ControlledMonitorsOff,
            };
            push_line(&mut lines, line_of("Last known switch state: ", quick_switch_state_label(state)));
            let saved = saved_count_exec(&controlled, config);
            let mut c = chars_of("Saved layout coverage: ");
            push_dec(&mut c, saved);
            push_str(&mut c, "/");
            push_dec(&mut c, controlled.len() as u64);
            push_str(&mut c, " controlled monitors");
            push_line(&mut lines, to_string(c.as_slice()));
            proof {
                assert(crate::monitor::monitors_view(controlled@).len() == controlled@.len());
                assert(snap@.len() == snap.monitors@.len());
            }
            assert(views(lines@) =~= monitor_lines(Some(snap@), config@));
        },
        None => {
            push_line(&mut lines, String::from_str("Detected monitors: unavailable"));
            push_line(&mut lines, String::from_str("Controlled monitors: unavailable"));
            push_line(&mut lines, String::from_str("Last known switch state: unavailable"));
            push_line(&mut lines, String::from_str("Saved layout coverage: unavailable"));
            assert(views(lines@) =~= monitor_lines(None, config@));
        },
    }
    lines
}

fn tail_lines_exec(facts: &DiagnosticsFacts) -> (r: Vec<String>)
    ensures
        views(r@) == tail_lines(*facts),
{
    let mut lines: Vec<String> = Vec::new();
    push_line(&mut lines, tool_line_exec("ddcutil", facts.ddcutil_available));
    push_line(&mut lines, tool_line_exec("xrandr", facts.xrandr_available));
    push_line(&mut lines, tool_line_exec("kscreen-doctor", facts.kscreen_doctor_available));
    push_line(&mut lines, line_of("Tray icon asset: ", if facts.tray_icon_available { "available" } else { "missing" }));
    push_line(&mut lines, line_of("Autostart: ", if facts.autostart_enabled { "enabled" } else { "disabled" }));
    match &facts.last_command_failure {
        Some(e) => push_line(&mut lines, line_of("Last command failure: ", e.as_str())),
        None => push_line(&mut lines, line_of("Last command failure: ", "none")),
    }
    push_line(&mut lines, line_of("Log file: ", facts.log_file.as_str()));
    assert(views(lines@) =~= tail_lines(*facts));
    lines
}

fn append_lines(lines: &mut Vec<String>, more: Vec<String>)
    ensures
        views(final(lines)@) == views(old(lines)@) + views(more@),
{
    let ghost start = views(lines@);
    let mut i: usize = 0;
    while i < more.len()
        invariant
            i <= more@.len(),
            views(lines@) == start + views(more@).subrange(0, i as int),
        decreases more@.len() - i,
    {
        let ghost before = views(lines@);
        lines.push(more[i].clone());
        assert(views(lines@) =~= before.push(more@[i as int]@));
        assert(views(more@).subrange(0, i + 1) =~= views(more@).subrange(0, i as int).push(more@[i as int]@));
        i += 1;
    }
    assert(views(more@).subrange(0, more@.len() as int) =~= views(more@));
}

/// The diagnostics report: what the library knows (the snapshot, when one
/// could be had, and the settings) and the facts gathered outside it.
pub fn diagnostics_report(facts: &DiagnosticsFacts, snapshot: Option<&MonitorSnapshot>, config: &AppConfig) -> (r: DiagnosticsReport)
    ensures
        views(r.lines@) == diagnostics_spec(*facts, match snapshot {
            Some(s) => Some(s@),
            None => None,
        }, config@),
{
    let mut lines = head_lines_exec(facts);
    append_lines(&mut lines, monitor_lines_exec(snapshot, config));
    append_lines(&mut lines, tail_lines_exec(facts));
    DiagnosticsReport { lines }
}

} // verus!
