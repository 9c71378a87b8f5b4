//! The decisions of the tray app: which display is primary, which monitors a
//! quick switch controls, which way it goes, and what it reports.
use crate::config::{
    fresh_settings, law_write_then_lookup, lookup, written, opt_view, renamed, settings_views, upsert, upsert_index, AppConfig,
    ConfigView, MonitorSettings, QuickSwitchState, MonitorSettingsView,
};
use crate::monitor::{
    monitors_view, DdcMonitorInfo, InputSource, MonitorInfo, MonitorSnapshot, MonitorView,
};
use crate::text::{
    chars_of, dec, eq_chars, eq_chars_str, join, join_strings, push_all, push_dec, push_str,
    to_string, views, contains, contains_str, lower, lower_chars, trim,
};
use crate::monitor::{current_input_scan, input_markers, scan_input_value, text_opt, DdcView};
use crate::display::OutputLayout;
use vstd::prelude::*;

verus! {

/// The application id: icon name, config directory and lock file name.
pub const APP_ID: &'static str = "monitor-toggle-tray";

/// The name shown to the user.
pub const APP_NAME: &'static str = "Monitor Input & Layout Switcher";

/// What a quick switch did.
#[derive(Debug, PartialEq, Eq)]
pub struct QuickSwitchReport {
    pub state: QuickSwitchState,
    pub controlled_monitors: usize,
    pub output_count: usize,
    pub layout_changed: bool,
    pub input_attempts: usize,
    pub switched_inputs: usize,
    pub notes: Vec<String>,
}

/// The sentences of a quick-switch report.
pub open spec fn report_parts(r: QuickSwitchReport) -> Seq<Seq<char>> {
    let off = r.state == QuickSwitchState::ControlledMonitorsOff;
    let action = if off { "Handed"@ } else { "Brought back"@ };
    let destination = if off { "to the other device"@ } else { "to the laptop"@ };
    let layout_action = if off { "disabled"@ } else { "restored"@ };
    let first = "Quick switch complete: "@ + action + " "@ + dec(r.controlled_monitors as nat)
        + " controlled monitor(s) "@ + destination + "."@;
    let layout = if r.layout_changed {
        "Layout "@ + layout_action + " for "@ + dec(r.output_count as nat) + " output(s)."@
    } else {
        "Layout unchanged."@
    };
    let inputs = if r.input_attempts > 0 {
        "Input switches: "@ + dec(r.switched_inputs as nat) + "/"@ + dec(r.input_attempts as nat)
            + " command(s) succeeded."@
    } else {
        "Input switches: none attempted."@
    };
    let base = seq![first, layout, inputs];
    if r.notes@.len() > 0 {
        base.push("Issues: "@ + join(views(r.notes@), " | "@))
    } else {
        base
    }
}

/// A quick-switch report as one line of text.
pub open spec fn report_message(r: QuickSwitchReport) -> Seq<char> {
    join(report_parts(r), " "@)
}

impl QuickSwitchReport {
    /// The report as one line: what was done with how many monitors, the
    /// layout change, the input switches, and any issues.
    pub fn message(&self) -> (r: String)
        ensures
            r@ == report_message(*self),
    {
        let off = self.state == QuickSwitchState::ControlledMonitorsOff;
        let mut first = chars_of("Quick switch complete: ");
        push_str(&mut first, if off { "Handed" } else { "Brought back" });
        push_str(&mut first, " ");
        push_dec(&mut first, self.controlled_monitors as u64);
        push_str(&mut first, " controlled monitor(s) ");
        push_str(&mut first, if off { "to the other device" } else { "to the laptop" });
        push_str(&mut first, ".");
        let layout = if self.layout_changed {
            let mut l = chars_of("Layout ");
            push_str(&mut l, if off { "disabled" } else { "restored" });
            push_str(&mut l, " for ");
            push_dec(&mut l, self.output_count as u64);
            push_str(&mut l, " output(s).");
            l
        } else {
            chars_of("Layout unchanged.")
        };
        let inputs = if self.input_attempts > 0 {
            let mut l = chars_of("Input switches: ");
            push_dec(&mut l, self.switched_inputs as u64);
            push_str(&mut l, "/");
            push_dec(&mut l, self.input_attempts as u64);
            push_str(&mut l, " command(s) succeeded.");
            l
        } else {
            chars_of("Input switches: none attempted.")
        };
        let mut parts: Vec<String> = Vec::new();
        parts.push(to_string(first.as_slice()));
        parts.push(to_string(layout.as_slice()));
        parts.push(to_string(inputs.as_slice()));
        if self.notes.len() > 0 {
            let mut issues = chars_of("Issues: ");
            let joined = join_strings(&self.notes, " | ");
            crate::text::push_all(&mut issues, joined.as_slice());
            parts.push(to_string(issues.as_slice()));
        }
        let ghost expected = report_parts(*self);
        assert(views(parts@) =~= expected);
        let line = join_strings(&parts, " ");
        to_string(line.as_slice())
    }
}

/// The name of a switch state.
pub open spec fn state_label(state: QuickSwitchState) -> Seq<char> {
    match state {
        QuickSwitchState::ControlledMonitorsOn => "controlled monitors on"@,
        QuickSwitchState::ControlledMonitorsOff => "controlled monitors off"@,
    }
}

/// The name of a switch state.
pub fn quick_switch_state_label(state: QuickSwitchState) -> (r: &'static str)
    ensures
        r@ == state_label(state),
{
    match state {
        QuickSwitchState::ControlledMonitorsOn => "controlled monitors on",
        QuickSwitchState::ControlledMonitorsOff => "controlled monitors off",
    }
}

/// The icon name of the tray item.
pub fn tray_icon_name() -> (r: &'static str)
    ensures
        r@ == APP_ID@,
{
    APP_ID
}

// ---------------------------------------------------------------------------
// Picking monitors
// ---------------------------------------------------------------------------

/// Ways of picking a monitor.
pub enum Pick {
    /// Connected, with this id.
    ConnectedWithId(Seq<char>),
    /// Connected and internal.
    InternalConnected,
    /// Connected.
    Connected,
}

pub open spec fn pick_holds(p: Pick, m: MonitorView) -> bool {
    match p {
        Pick::ConnectedWithId(id) => m.id == id && m.connected,
        Pick::InternalConnected => m.connected && m.internal,
        Pick::Connected => m.connected,
    }
}

pub open spec fn is_first_pick(v: Seq<MonitorView>, p: Pick, i: int) -> bool {
    0 <= i < v.len() && pick_holds(p, v[i]) && forall|j: int| 0 <= j < i ==> !pick_holds(p, #[trigger] v[j])
}

/// The index of the first monitor that `p` picks.
pub open spec fn first_pick(v: Seq<MonitorView>, p: Pick) -> Option<int> {
    if exists|i: int| 0 <= i < v.len() && pick_holds(p, #[trigger] v[i]) {
        Some(choose|i: int| is_first_pick(v, p, i))
    } else {
        None
    }
}

pub proof fn lemma_first_pick_is(v: Seq<MonitorView>, p: Pick, i: int)
    requires
        is_first_pick(v, p, i),
    ensures
        first_pick(v, p) == Some(i),
{
    assert(pick_holds(p, v[i]));
    let k = choose|k: int| is_first_pick(v, p, k);
    assert(is_first_pick(v, p, k));
    if k < i {
        assert(!pick_holds(p, v[k]));
    } else if i < k {
        assert(!pick_holds(p, v[i]));
    }
}

/// `kind` 0 picks connected monitors with id `id`, 1 connected internal ones,
/// 2 connected ones.
pub open spec fn pick_of(kind: u8, id: Seq<char>) -> Pick {
    if kind == 0 {
        Pick::ConnectedWithId(id)
    } else if kind == 1 {
        Pick::InternalConnected
    } else {
        Pick::Connected
    }
}

fn first_monitor(v: &Vec<MonitorInfo>, kind: u8, id: &[char]) -> (r: Option<usize>)
    ensures
        match r {
            Some(i) => i < v@.len() && first_pick(monitors_view(v@), pick_of(kind, id@)) == Some(i as int),
            None => first_pick(monitors_view(v@), pick_of(kind, id@)) is None,
        },
{
    let ghost mv = monitors_view(v@);
    let ghost p = pick_of(kind, id@);
    let mut i: usize = 0;
    while i < v.len()
        invariant
            mv == monitors_view(v@),
            p == pick_of(kind, id@),
            i <= v@.len(),
            forall|j: int| 0 <= j < i ==> !pick_holds(p, #[trigger] mv[j]),
        decreases v@.len() - i,
    {
        let m = &v[i];
        let hit = if kind == 0 {
            m.connected && {
                let mid = chars_of(m.id.as_str());
                eq_chars(mid.as_slice(), id)
            }
        } else if kind == 1 {
            m.connected && m.internal
        } else {
            m.connected
        };
        if hit {
            proof {
                lemma_first_pick_is(mv, p, i as int);
            }
            return Some(i);
        }
        i += 1;
    }
    None
}

/// The configured primary monitor, when it is connected.
pub open spec fn configured_choice(v: Seq<MonitorView>, primary_id: Option<Seq<char>>) -> Option<int> {
    match primary_id {
        Some(id) => first_pick(v, Pick::ConnectedWithId(id)),
        None => None,
    }
}

/// The primary display: the configured one when it is connected, else the
/// first connected internal monitor, else the first connected monitor.
pub open spec fn primary_choice(v: Seq<MonitorView>, primary_id: Option<Seq<char>>) -> Option<int> {
    match configured_choice(v, primary_id) {
        Some(i) => Some(i),
        None => match first_pick(v, Pick::InternalConnected) {
            Some(i) => Some(i),
            None => first_pick(v, Pick::Connected),
        },
    }
}

pub open spec fn chosen(v: Seq<MonitorView>, choice: Option<int>, r: Option<MonitorInfo>) -> bool {
    match choice {
        Some(i) => r matches Some(m) && m@ == v[i],
        None => r is None,
    }
}

fn copy_monitor_at(v: &Vec<MonitorInfo>, i: Option<usize>) -> (r: Option<MonitorInfo>)
    requires
        i matches Some(k) ==> k < v@.len(),
    ensures
        match i {
            Some(k) => r matches Some(m) && m@ == v@[k as int]@,
            None => r is None,
        },
{
    match i {
        Some(k) => Some(v[k].duplicate()),
        None => None,
    }
}

/// The configured primary monitor, if it is connected.
pub fn configured_primary(snapshot: &MonitorSnapshot, primary_id: Option<&str>) -> (r: Option<MonitorInfo>)
    ensures
        chosen(snapshot@, configured_choice(snapshot@, match primary_id {
            Some(id) => Some(id@),
            None => None,
        }), r),
{
    match primary_id {
        Some(id) => {
            let idv = chars_of(id);
            let i = first_monitor(&snapshot.monitors, 0, idv.as_slice());
            copy_monitor_at(&snapshot.monitors, i)
        },
        None => None,
    }
}

fn primary_index(snapshot: &MonitorSnapshot, config: &AppConfig) -> (r: Option<usize>)
    ensures
        match r {
            Some(i) => i < snapshot.monitors@.len() && primary_choice(snapshot@, config@.primary_monitor_id) == Some(i as int),
            None => primary_choice(snapshot@, config@.primary_monitor_id) is None,
        },
{
    let none: Vec<char> = Vec::new();
    let configured = match &config.primary_monitor_id {
        Some(id) => {
            let idv = chars_of(id.as_str());
            first_monitor(&snapshot.monitors, 0, idv.as_slice())
        },
        None => None,
    };
    match configured {
        Some(i) => Some(i),
        None => match first_monitor(&snapshot.monitors, 1, none.as_slice()) {
            Some(i) => Some(i),
            None => first_monitor(&snapshot.monitors, 2, none.as_slice()),
        },
    }
}

/// The primary display: the configured one when it is connected, else the
/// first connected internal monitor, else the first connected monitor.
pub fn resolve_primary(snapshot: &MonitorSnapshot, config: &AppConfig) -> (r: Option<MonitorInfo>)
    ensures
        chosen(snapshot@, primary_choice(snapshot@, config@.primary_monitor_id), r),
{
    let i = primary_index(snapshot, config);
    copy_monitor_at(&snapshot.monitors, i)
}

/// A monitor the quick switch controls: external and included in quick switch.
pub open spec fn is_controlled(settings: Seq<MonitorSettingsView>, m: MonitorView) -> bool {
    !m.internal && (lookup(settings, m.id) matches Some(s) && s.include_in_quick_switch)
}

/// The monitors the quick switch controls, in snapshot order.
pub open spec fn controlled_spec(v: Seq<MonitorView>, settings: Seq<MonitorSettingsView>) -> Seq<MonitorView>
    decreases v.len(),
{
    if v.len() == 0 {
        Seq::empty()
    } else {
        let rest = controlled_spec(v.drop_last(), settings);
        if is_controlled(settings, v.last()) {
            rest.push(v.last())
        } else {
            rest
        }
    }
}

fn is_controlled_exec(config: &AppConfig, m: &MonitorInfo) -> (b: bool)
    ensures
        b == is_controlled(config@.monitor_settings, m@),
{
    if m.internal {
        return false;
    }
    match config.settings(m.id.as_str()) {
        Some(s) => s.include_in_quick_switch,
        None => false,
    }
}

/// The external monitors included in quick switch, in snapshot order.
pub fn controlled_monitors(snapshot: &MonitorSnapshot, config: &AppConfig) -> (r: Vec<MonitorInfo>)
    ensures
        monitors_view(r@) == controlled_spec(snapshot@, config@.monitor_settings),
{
    let ghost v = snapshot@;
    let mut out: Vec<MonitorInfo> = Vec::new();
    let mut i: usize = 0;
    assert(v.subrange(0, 0) =~= Seq::<MonitorView>::empty());
    assert(monitors_view(out@) =~= Seq::<MonitorView>::empty());
    while i < snapshot.monitors.len()
        invariant
            v == snapshot@,
            i <= v.len(),
            monitors_view(out@) == controlled_spec(v.subrange(0, i as int), config@.monitor_settings),
        decreases v.len() - i,
    {
        assert(v.subrange(0, i + 1).drop_last() =~= v.subrange(0, i as int));
        assert(v.subrange(0, i + 1).last() == snapshot.monitors@[i as int]@);
        let m = &snapshot.monitors[i];
        if is_controlled_exec(config, m) {
            let d = m.duplicate();
            let ghost before = out@;
            out.push(d);
            assert(monitors_view(out@) =~= monitors_view(before).push(d@));
        }
        i += 1;
    }
    assert(v.subrange(0, v.len() as int) =~= v);
    out
}

// ---------------------------------------------------------------------------
// Switch direction
// ---------------------------------------------------------------------------

pub open spec fn any_external_active(v: Seq<MonitorView>) -> bool {
    exists|i: int| 0 <= i < v.len() && !(#[trigger] v[i]).internal && v[i].active
}

pub open spec fn any_active(v: Seq<MonitorView>) -> bool {
    exists|i: int| 0 <= i < v.len() && (#[trigger] v[i]).active
}

/// The state the layout is in: on when some external monitor is active.
pub open spec fn inferred_state(v: Seq<MonitorView>) -> QuickSwitchState {
    if any_external_active(v) {
        QuickSwitchState::ControlledMonitorsOn
    } else {
        QuickSwitchState::ControlledMonitorsOff
    }
}

/// The state the layout is in, judged from the snapshot: controlled monitors
/// on when some external monitor is active.
pub fn inferred_switch_state(snapshot: &MonitorSnapshot) -> (r: Option<QuickSwitchState>)
    ensures
        r == Some(inferred_state(snapshot@)),
{
    let ghost v = snapshot@;
    let mut i: usize = 0;
    while i < snapshot.monitors.len()
        invariant
            v == snapshot@,
            i <= v.len(),
            forall|j: int| 0 <= j < i ==> !(!(#[trigger] v[j]).internal && v[j].active),
        decreases v.len() - i,
    {
        if !snapshot.monitors[i].internal && snapshot.monitors[i].active {
            assert(!v[i as int].internal && v[i as int].active);
            return Some(QuickSwitchState::ControlledMonitorsOn);
        }
        i += 1;
    }
    Some(QuickSwitchState::ControlledMonitorsOff)
}

/// The last switch direction recorded, or else the one judged from the snapshot.
pub fn current_switch_state(config: &AppConfig, snapshot: &MonitorSnapshot) -> (r: Option<QuickSwitchState>)
    ensures
        r == Some(
            match config.last_quick_switch_state {
                Some(s) => s,
                None => inferred_state(snapshot@),
            },
        ),
{
    match config.last_quick_switch_state {
        Some(s) => Some(s),
        None => inferred_switch_state(snapshot),
    }
}

/// The direction of the next quick switch: off when a controlled monitor is
/// active, on when none is.
pub open spec fn desired_direction(any_controlled_active: bool) -> QuickSwitchState {
    if any_controlled_active {
        QuickSwitchState::ControlledMonitorsOff
    } else {
        QuickSwitchState::ControlledMonitorsOn
    }
}

/// The direction of the next quick switch: controlled monitors off when one
/// of them is active, back on when none is. The recorded last switch and the
/// other monitors of the snapshot do not change it.
pub fn infer_desired_switch_direction(
    config: &AppConfig,
    snapshot: &MonitorSnapshot,
    controlled: &[MonitorInfo],
) -> (r: QuickSwitchState)
    ensures
        r == desired_direction(any_active(monitors_view(controlled@))),
{
    let ghost cv = monitors_view(controlled@);
    let mut any = false;
    let mut i: usize = 0;
    while i < controlled.len()
        invariant
            cv == monitors_view(controlled@),
            i <= cv.len(),
            any == exists|j: int| 0 <= j < i && (#[trigger] cv[j]).active,
        decreases cv.len() - i,
    {
        if controlled[i].active {
            assert(cv[i as int].active);
            any = true;
        }
        i += 1;
    }
    if any {
        QuickSwitchState::ControlledMonitorsOff
    } else {
        QuickSwitchState::ControlledMonitorsOn
    }
}

/// A quick switch turns the controlled monitors off exactly when one of them
/// is active, and back on exactly when none of them is, whatever was recorded
/// and whatever other monitors are active; so two switches in a row, with the
/// first one taking effect, go in opposite directions.
pub proof fn law_switch_direction(controlled: Seq<MonitorView>, after: Seq<MonitorView>)
    ensures
        any_active(controlled) <==> desired_direction(any_active(controlled)) == QuickSwitchState::ControlledMonitorsOff,
        !any_active(controlled) <==> desired_direction(any_active(controlled)) == QuickSwitchState::ControlledMonitorsOn,
        desired_direction(any_active(controlled)) == QuickSwitchState::ControlledMonitorsOff && !any_active(after)
            ==> desired_direction(any_active(after)) == QuickSwitchState::ControlledMonitorsOn,
        desired_direction(any_active(controlled)) == QuickSwitchState::ControlledMonitorsOn && any_active(after)
            ==> desired_direction(any_active(after)) == QuickSwitchState::ControlledMonitorsOff,
{
}

/// The controlled monitors are among the snapshot's monitors, and none is internal.
pub proof fn law_controlled_are_external(v: Seq<MonitorView>, settings: Seq<MonitorSettingsView>)
    ensures
        forall|i: int| 0 <= i < controlled_spec(v, settings).len() ==> {
            let m = #[trigger] controlled_spec(v, settings)[i];
            &&& !m.internal
            &&& v.contains(m)
            &&& is_controlled(settings, m)
        },
    decreases v.len(),
{
    if v.len() > 0 {
        law_controlled_are_external(v.drop_last(), settings);
        let rest = controlled_spec(v.drop_last(), settings);
        assert forall|i: int| 0 <= i < controlled_spec(v, settings).len() implies {
            let m = #[trigger] controlled_spec(v, settings)[i];
            &&& !m.internal
            &&& v.contains(m)
            &&& is_controlled(settings, m)
        } by {
            let m = controlled_spec(v, settings)[i];
            if i < rest.len() {
                assert(m == rest[i]);
                let k = choose|k: int| 0 <= k < v.drop_last().len() && v.drop_last()[k] == m;
                assert(v[k] == m);
            } else {
                assert(m == v.last());
                assert(v[v.len() - 1] == m);
            }
        }
    }
}

/// The primary display is connected, and it is the configured one whenever
/// that one is connected.
pub proof fn law_primary_choice(v: Seq<MonitorView>, primary_id: Option<Seq<char>>)
    ensures
        primary_choice(v, primary_id) matches Some(i) ==> 0 <= i < v.len() && v[i].connected,
        (primary_id matches Some(id) && exists|k: int| 0 <= k < v.len() && (#[trigger] v[k]).id == id && v[k].connected)
            ==> (primary_choice(v, primary_id) matches Some(i) && v[i].id == primary_id->0),
        (exists|k: int| 0 <= k < v.len() && (#[trigger] v[k]).connected) ==> primary_choice(v, primary_id) is Some,
{
    lemma_first_pick_first(v, Pick::InternalConnected);
    lemma_first_pick_first(v, Pick::Connected);
    if let Some(id) = primary_id {
        lemma_first_pick_first(v, Pick::ConnectedWithId(id));
        if exists|k: int| 0 <= k < v.len() && (#[trigger] v[k]).id == id && v[k].connected {
            let k = choose|k: int| 0 <= k < v.len() && (#[trigger] v[k]).id == id && v[k].connected;
            assert(pick_holds(Pick::ConnectedWithId(id), v[k]));
        }
    }
    if exists|k: int| 0 <= k < v.len() && (#[trigger] v[k]).connected {
        let k = choose|k: int| 0 <= k < v.len() && (#[trigger] v[k]).connected;
        assert(pick_holds(Pick::Connected, v[k]));
    }
}

pub proof fn lemma_first_pick_first(v: Seq<MonitorView>, p: Pick)
    ensures
        first_pick(v, p) matches Some(i) ==> is_first_pick(v, p, i),
{
    if exists|i: int| 0 <= i < v.len() && pick_holds(p, #[trigger] v[i]) {
        lemma_least_pick(v, p, v.len() as int);
    }
}

proof fn lemma_least_pick(v: Seq<MonitorView>, p: Pick, n: int)
    requires
        0 <= n <= v.len(),
        exists|i: int| 0 <= i < n && pick_holds(p, #[trigger] v[i]),
    ensures
        exists|i: int| is_first_pick(v, p, i),
    decreases n,
{
    if exists|i: int| 0 <= i < n - 1 && pick_holds(p, #[trigger] v[i]) {
        lemma_least_pick(v, p, n - 1);
    } else {
        assert(is_first_pick(v, p, n - 1));
    }
}

// ---------------------------------------------------------------------------
// Keeping the settings in step with the monitors
// ---------------------------------------------------------------------------

/// The settings after one monitor is seen: its entry renamed or added, and its
/// current input recorded as the laptop input when it is active and none is
/// recorded yet.
pub open spec fn sync_step(s: Seq<MonitorSettingsView>, m: MonitorView) -> Seq<MonitorSettingsView> {
    let u = upsert(s, m.id, m.display_name);
    let k = upsert_index(s, m.id);
    if u[k].laptop_input is None && m.active && (m.ddc matches Some(d) && d.current_input is Some) {
        u.update(k, with_laptop_input(u[k], m.ddc->0.current_input))
    } else {
        u
    }
}

pub open spec fn with_laptop_input(s: MonitorSettingsView, input: Option<Seq<char>>) -> MonitorSettingsView {
    MonitorSettingsView {
        monitor_id: s.monitor_id,
        display_name: s.display_name,
        include_in_quick_switch: s.include_in_quick_switch,
        laptop_input: input,
        toggle_input: s.toggle_input,
        saved_position_x: s.saved_position_x,
        saved_position_y: s.saved_position_y,
        saved_width: s.saved_width,
        saved_height: s.saved_height,
    }
}

pub open spec fn sync_settings(s: Seq<MonitorSettingsView>, ms: Seq<MonitorView>) -> Seq<MonitorSettingsView>
    decreases ms.len(),
{
    if ms.len() == 0 {
        s
    } else {
        sync_step(sync_settings(s, ms.drop_last()), ms.last())
    }
}

/// The primary id after a sync: the primary display's id, if there is one.
pub open spec fn synced_primary(v: Seq<MonitorView>, primary_id: Option<Seq<char>>) -> Option<Seq<char>> {
    match primary_choice(v, primary_id) {
        Some(i) => Some(v[i].id),
        None => None,
    }
}

/// Brings the settings in step with a snapshot: the primary id becomes the
/// primary display's, every monitor gets settings under its current name, and
/// an active monitor's current input becomes its laptop input when none is set.
pub fn sync_config_with_snapshot(config: &mut AppConfig, snapshot: &MonitorSnapshot)
    ensures
        final(config)@.primary_monitor_id == synced_primary(snapshot@, old(config)@.primary_monitor_id),
        final(config)@.last_quick_switch_state == old(config)@.last_quick_switch_state,
        final(config)@.monitor_settings == sync_settings(old(config)@.monitor_settings, snapshot@),
{
    let p = primary_index(snapshot, config);
    config.primary_monitor_id = match p {
        Some(i) => Some(snapshot.monitors[i].id.clone()),
        None => None,
    };
    let ghost v = snapshot@;
    let ghost s0 = old(config)@.monitor_settings;
    let mut i: usize = 0;
    assert(v.subrange(0, 0) =~= Seq::<MonitorView>::empty());
    while i < snapshot.monitors.len()
        invariant
            v == snapshot@,
            i <= v.len(),
            config@.primary_monitor_id == synced_primary(v, old(config)@.primary_monitor_id),
            config@.last_quick_switch_state == old(config)@.last_quick_switch_state,
            config@.monitor_settings == sync_settings(s0, v.subrange(0, i as int)),
        decreases v.len() - i,
    {
        assert(v.subrange(0, i + 1).drop_last() =~= v.subrange(0, i as int));
        let m = &snapshot.monitors[i];
        assert(v.subrange(0, i + 1).last() == m@);
        let ghost prev = config@.monitor_settings;
        let ghost u = upsert(prev, m.id@, m.display_name@);
        let ghost k = upsert_index(prev, m.id@);
        let st = config.settings_mut_or_insert(m.id.as_str(), m.display_name.as_str());
        let mut changed = false;
        if st.laptop_input.is_none() && m.active {
            match &m.ddc {
                Some(d) => match &d.current_input {
                    Some(ci) => {
                        st.laptop_input = Some(ci.clone());
                        changed = true;
                    },
                    None => {},
                },
                None => {},
            }
        }
        proof {
            crate::config::lemma_upsert_index(prev, m@.id, m@.display_name);
            if changed {
                assert(config@.monitor_settings =~= u.update(k, with_laptop_input(u[k], m@.ddc->0.current_input)));
            } else {
                assert(has_resolved(st));
                assert(u.update(k, u[k]) =~= u);
                assert(config@.monitor_settings =~= u);
            }
            assert(config@.monitor_settings =~= sync_step(prev, m@));
        }
        i += 1;
    }
    assert(v.subrange(0, v.len() as int) =~= v);
}

/// A settings change made in the settings window.
#[derive(Debug)]
pub struct SettingsUpdate {
    pub primary_monitor_id: Option<String>,
    pub autostart_enabled: bool,
    pub monitors: Vec<SettingsMonitorUpdate>,
}

/// The change to one monitor's settings.
#[derive(Debug)]
pub struct SettingsMonitorUpdate {
    pub id: String,
    pub display_name: String,
    pub internal: bool,
    pub include_in_quick_switch: bool,
    pub laptop_input: Option<String>,
    pub toggle_input: Option<String>,
}

/// One monitor's change applied: an internal monitor is never included in
/// quick switch and has no toggle-to input.
pub open spec fn apply_monitor_update(s: Seq<MonitorSettingsView>, u: SettingsMonitorUpdate) -> Seq<MonitorSettingsView> {
    let up = upsert(s, u.id@, u.display_name@);
    let k = upsert_index(s, u.id@);
    up.update(
        k,
        MonitorSettingsView {
            monitor_id: up[k].monitor_id,
            display_name: up[k].display_name,
            include_in_quick_switch: if u.internal { false } else { u.include_in_quick_switch },
            laptop_input: opt_view(u.laptop_input),
            toggle_input: if u.internal { None } else { opt_view(u.toggle_input) },
            saved_position_x: up[k].saved_position_x,
            saved_position_y: up[k].saved_position_y,
            saved_width: up[k].saved_width,
            saved_height: up[k].saved_height,
        },
    )
}

pub open spec fn apply_updates(s: Seq<MonitorSettingsView>, us: Seq<SettingsMonitorUpdate>) -> Seq<MonitorSettingsView>
    decreases us.len(),
{
    if us.len() == 0 {
        s
    } else {
        apply_monitor_update(apply_updates(s, us.drop_last()), us.last())
    }
}

/// Applies a settings change: the primary monitor, and for each monitor its
/// name, quick-switch inclusion and inputs.
pub fn apply_settings(config: &mut AppConfig, update: &SettingsUpdate)
    ensures
        final(config)@.primary_monitor_id == opt_view(update.primary_monitor_id),
        final(config)@.last_quick_switch_state == old(config)@.last_quick_switch_state,
        final(config)@.monitor_settings == apply_updates(old(config)@.monitor_settings, update.monitors@),
{
    config.primary_monitor_id = match &update.primary_monitor_id {
        Some(p) => Some(p.clone()),
        None => None,
    };
    let ghost us = update.monitors@;
    let ghost s0 = old(config)@.monitor_settings;
    let mut i: usize = 0;
    assert(us.subrange(0, 0) =~= Seq::<SettingsMonitorUpdate>::empty());
    while i < update.monitors.len()
        invariant
            us == update.monitors@,
            i <= us.len(),
            config@.primary_monitor_id == opt_view(update.primary_monitor_id),
            config@.last_quick_switch_state == old(config)@.last_quick_switch_state,
            config@.monitor_settings == apply_updates(s0, us.subrange(0, i as int)),
        decreases us.len() - i,
    {
        assert(us.subrange(0, i + 1).drop_last() =~= us.subrange(0, i as int));
        let m = &update.monitors[i];
        assert(us.subrange(0, i + 1).last() == *m);
        let st = config.settings_mut_or_insert(m.id.as_str(), m.display_name.as_str());
        st.include_in_quick_switch = if m.internal {
            false
        } else {
            m.include_in_quick_switch
        };
        st.laptop_input = match &m.laptop_input {
            Some(x) => Some(x.clone()),
            None => None,
        };
        st.toggle_input = if m.internal {
            None
        } else {
            match &m.toggle_input {
                Some(x) => Some(x.clone()),
                None => None,
            }
        };
        i += 1;
    }
    assert(us.subrange(0, us.len() as int) =~= us);
}

// ---------------------------------------------------------------------------
// Status text
// ---------------------------------------------------------------------------

/// The status once the background refresh has finished.
pub open spec fn startup_message(v: Seq<MonitorView>, cfg: ConfigView) -> Seq<char> {
    if v.len() == 0 {
        "Ready. No monitors were detected yet."@
    } else {
        let primary = match primary_choice(v, cfg.primary_monitor_id) {
            Some(i) => v[i].display_name,
            None => "Unavailable"@,
        };
        "Ready. Primary: "@ + primary + ". Controlled monitors configured: "@ + dec(
            controlled_spec(v, cfg.monitor_settings).len(),
        ) + "."@
    }
}

/// The status once the background refresh has finished: the primary display and
/// the number of controlled monitors.
pub fn startup_ready_message(config: &AppConfig, snapshot: &MonitorSnapshot) -> (r: String)
    ensures
        r@ == startup_message(snapshot@, config@),
{
    if snapshot.monitors.len() == 0 {
        return String::from_str("Ready. No monitors were detected yet.");
    }
    let mut out = chars_of("Ready. Primary: ");
    match primary_index(snapshot, config) {
        Some(i) => push_str(&mut out, snapshot.monitors[i].display_name.as_str()),
        None => push_str(&mut out, "Unavailable"),
    }
    push_str(&mut out, ". Controlled monitors configured: ");
    let controlled = controlled_monitors(snapshot, config);
    push_dec(&mut out, controlled.len() as u64);
    push_str(&mut out, ".");
    proof {
        assert(monitors_view(controlled@).len() == controlled@.len());
    }
    to_string(out.as_slice())
}

/// The status line: a running switch, else the last status message, else the
/// last known switch state (`Monitor state unavailable` without a snapshot).
pub open spec fn status_text(
    switch_in_progress: bool,
    last_status: Option<Seq<char>>,
    snapshot: Option<Seq<MonitorView>>,
    last: Option<QuickSwitchState>,
) -> Seq<char> {
    if switch_in_progress {
        "Quick switch in progress"@
    } else if last_status is Some {
        last_status->0
    } else {
        match snapshot {
            None => "Monitor state unavailable"@,
            Some(v) => "Last known state: "@ + state_label(
                match last {
                    Some(s) => s,
                    None => inferred_state(v),
                },
            ),
        }
    }
}

/// The status line shown in the tray and the settings window.
pub fn current_status_text(
    switch_in_progress: bool,
    last_status: &Option<String>,
    config: &AppConfig,
    snapshot: Option<&MonitorSnapshot>,
) -> (r: String)
    ensures
        r@ == status_text(
            switch_in_progress,
            text_opt(*last_status),
            match snapshot {
                Some(s) => Some(s@),
                None => None,
            },
            config.last_quick_switch_state,
        ),
{
    if switch_in_progress {
        return String::from_str("Quick switch in progress");
    }
    if let Some(s) = last_status {
        return s.clone();
    }
    match snapshot {
        None => String::from_str("Monitor state unavailable"),
        Some(snap) => {
            let state = match current_switch_state(config, snap) {
                Some(s) => s,
                None => QuickSwitchState::ControlledMonitorsOff,
            };
            let mut out = chars_of("Last known state: ");
            push_str(&mut out, quick_switch_state_label(state));
            to_string(out.as_slice())
        },
    }
}

// ---------------------------------------------------------------------------
// Commands
// ---------------------------------------------------------------------------

/// The current input in a `ddcutil getvcp` reply, as `0x..`.
pub fn parse_current_input(output: &str) -> (r: Option<String>)
    ensures
        match r {
            Some(v) => current_input_scan(output@, input_markers()) == Some(v@),
            None => current_input_scan(output@, input_markers()) is None,
        },
{
    let s = chars_of(output);
    match scan_input_value(s.as_slice(), false) {
        Some(v) => Some(to_string(v.as_slice())),
        None => None,
    }
}

pub open spec fn has_arg(args: Seq<Seq<char>>, a: Seq<char>) -> bool {
    args.contains(a)
}

/// How long a command may run, in milliseconds.
pub open spec fn timeout_ms(program: Seq<char>, args: Seq<Seq<char>>) -> u64 {
    if program == "ddcutil"@ {
        if has_arg(args, "getvcp"@) {
            3000
        } else if has_arg(args, "setvcp"@) {
            5000
        } else {
            8000
        }
    } else if program == "xrandr"@ || program == "kscreen-doctor"@ {
        5000
    } else if program == "qdbus6"@ {
        3000
    } else {
        10000
    }
}

pub(crate) fn has_arg_exec(args: &[String], a: &str) -> (b: bool)
    ensures
        b == has_arg(views(args@), a@),
{
    let av = chars_of(a);
    let mut i: usize = 0;
    while i < args.len()
        invariant
            av@ == a@,
            i <= args@.len(),
            forall|k: int| 0 <= k < i ==> args@[k]@ != a@,
        decreases args@.len() - i,
    {
        let x = chars_of(args[i].as_str());
        if eq_chars(x.as_slice(), av.as_slice()) {
            assert(views(args@)[i as int] == a@);
            return true;
        }
        i += 1;
    }
    assert(!views(args@).contains(a@)) by {
        if views(args@).contains(a@) {
            let k = choose|k: int| 0 <= k < views(args@).len() && views(args@)[k] == a@;
            assert(args@[k]@ == a@);
        }
    }
    false
}

/// How long a command may run, in milliseconds: 3 s for reading an input,
/// 5 s for setting one and for the layout tools, 8 s for other `ddcutil`
/// calls, 3 s for `qdbus6`, 10 s otherwise.
pub fn command_timeout(program: &str, args: &[String]) -> (r: u64)
    ensures
        r == timeout_ms(program@, views(args@)),
{
    let p = chars_of(program);
    if eq_chars_str(p.as_slice(), "ddcutil") {
        if has_arg_exec(args, "getvcp") {
            3000
        } else if has_arg_exec(args, "setvcp") {
            5000
        } else {
            8000
        }
    } else if eq_chars_str(p.as_slice(), "xrandr") || eq_chars_str(p.as_slice(), "kscreen-doctor") {
        5000
    } else if eq_chars_str(p.as_slice(), "qdbus6") {
        3000
    } else {
        10000
    }
}

/// How long a command may run without arguments, in milliseconds.
pub fn default_command_timeout(program: &str) -> (r: u64)
    ensures
        r == timeout_ms(program@, Seq::empty()),
{
    let none: Vec<String> = Vec::new();
    assert(views(none@) =~= Seq::<Seq<char>>::empty());
    command_timeout(program, none.as_slice())
}

/// Whether the start and success of a command are logged: `ddcutil` only when
/// setting an input, the layout tools except when only querying.
pub open spec fn logs_start(program: Seq<char>, args: Seq<Seq<char>>) -> bool {
    if program == "ddcutil"@ {
        has_arg(args, "setvcp"@)
    } else if program == "xrandr"@ {
        !has_arg(args, "--query"@)
    } else if program == "kscreen-doctor"@ {
        !has_arg(args, "-o"@)
    } else {
        true
    }
}

/// Whether the start and success of a command are logged.
pub fn should_log_command_start_and_success(program: &str, args: &[String]) -> (b: bool)
    ensures
        b == logs_start(program@, views(args@)),
{
    let p = chars_of(program);
    if eq_chars_str(p.as_slice(), "ddcutil") {
        has_arg_exec(args, "setvcp")
    } else if eq_chars_str(p.as_slice(), "xrandr") {
        !has_arg_exec(args, "--query")
    } else if eq_chars_str(p.as_slice(), "kscreen-doctor") {
        !has_arg_exec(args, "-o")
    } else {
        true
    }
}

/// A duration given in milliseconds: whole seconds (`3s`) from one second on,
/// milliseconds (`250ms`) below.
pub open spec fn duration_text(millis: u64) -> Seq<char> {
    if millis / 1000 > 0 {
        dec((millis / 1000) as nat) + "s"@
    } else {
        dec(millis as nat) + "ms"@
    }
}

/// A duration given in milliseconds, as text.
pub fn format_duration(millis: u64) -> (r: String)
    ensures
        r@ == duration_text(millis),
{
    let mut out: Vec<char> = Vec::new();
    if millis / 1000 > 0 {
        push_dec(&mut out, millis / 1000);
        push_str(&mut out, "s");
    } else {
        push_dec(&mut out, millis);
        push_str(&mut out, "ms");
    }
    to_string(out.as_slice())
}

/// A KDE Plasma session on Wayland.
pub open spec fn kde_wayland(session_type: Seq<char>, current_desktop: Seq<char>) -> bool {
    lower(session_type) == "wayland"@ && contains(lower(current_desktop), "kde"@)
}

/// Whether the session type and desktop name (as in `XDG_SESSION_TYPE` and
/// `XDG_CURRENT_DESKTOP`) are those of a KDE Plasma session on Wayland,
/// ignoring case.
pub fn is_kde_wayland_session(session_type: &str, current_desktop: &str) -> (b: bool)
    ensures
        b == kde_wayland(session_type@, current_desktop@),
{
    let st = chars_of(session_type);
    let cd = chars_of(current_desktop);
    let stl = lower_chars(st.as_slice());
    let cdl = lower_chars(cd.as_slice());
    eq_chars_str(stl.as_slice(), "wayland") && contains_str(cdl.as_slice(), "kde")
}

// ---------------------------------------------------------------------------
// Planning a quick switch
// ---------------------------------------------------------------------------

/// Both parts of a saved pair, or none.
pub open spec fn both<A, B>(a: Option<A>, b: Option<B>) -> Option<(A, B)> {
    match (a, b) {
        (Some(x), Some(y)) => Some((x, y)),
        _ => None,
    }
}

/// Where a controlled monitor's output goes back to: its saved position and size.
pub open spec fn layout_for(settings: Seq<MonitorSettingsView>, m: MonitorView) -> (Seq<char>, Option<(i32, i32)>, Option<(u32, u32)>) {
    match lookup(settings, m.id) {
        Some(s) => (m.output_name, both(s.saved_position_x, s.saved_position_y), both(s.saved_width, s.saved_height)),
        None => (m.output_name, None, None),
    }
}

pub open spec fn layout_view(l: OutputLayout) -> (Seq<char>, Option<(i32, i32)>, Option<(u32, u32)>) {
    (l.name@, l.position, l.size)
}

pub open spec fn layouts_view(v: Seq<OutputLayout>) -> Seq<(Seq<char>, Option<(i32, i32)>, Option<(u32, u32)>)> {
    v.map_values(|l: OutputLayout| layout_view(l))
}

/// What a quick switch does about one monitor's input.
#[derive(Debug)]
pub enum InputStep {
    /// Switch DDC/CI display `display_number` to `input`.
    Switch { display_number: u32, input: String },
    /// Nothing can be switched; the note says why.
    Note(String),
}

/// The input step as values: `Ok((display, input))` or `Err(note)`.
pub open spec fn step_view(s: InputStep) -> Result<(u32, Seq<char>), Seq<char>> {
    match s {
        InputStep::Switch { display_number, input } => Ok((display_number, input@)),
        InputStep::Note(n) => Err(n@),
    }
}

/// The input a monitor should get: its toggle-to input when turning off, its
/// laptop input when turning on.
pub open spec fn desired_input(settings: Seq<MonitorSettingsView>, m: MonitorView, direction: QuickSwitchState) -> Option<Seq<char>> {
    match lookup(settings, m.id) {
        Some(s) => match direction {
            QuickSwitchState::ControlledMonitorsOff => s.toggle_input,
            QuickSwitchState::ControlledMonitorsOn => s.laptop_input,
        },
        None => None,
    }
}

/// The input step of a monitor: a switch when it has DDC/CI and a configured
/// input, else a note that says which is missing.
pub open spec fn input_step(settings: Seq<MonitorSettingsView>, m: MonitorView, direction: QuickSwitchState) -> Result<(u32, Seq<char>), Seq<char>> {
    match (m.ddc, desired_input(settings, m, direction)) {
        (Some(d), Some(input)) => Ok((d.display_number, input)),
        (None, _) => Err(m.display_name + ": input switching is not available"@),
        (Some(_), None) => Err(
            m.display_name + ": no "@ + (if direction == QuickSwitchState::ControlledMonitorsOff {
                "toggle-to"@
            } else {
                "laptop"@
            }) + " input is configured"@,
        ),
    }
}

/// Where the primary display goes when the controlled monitors come back: its
/// saved position, else its current one; nowhere in particular when it has no
/// settings.
pub open spec fn restore_position(settings: Seq<MonitorSettingsView>, primary: MonitorView) -> Option<(i32, i32)> {
    match lookup(settings, primary.id) {
        Some(s) => match both(s.saved_position_x, s.saved_position_y) {
            Some(p) => Some(p),
            None => primary.position,
        },
        None => None,
    }
}

/// Everything a quick switch will do, decided before any command runs.
#[derive(Debug)]
pub struct QuickSwitchPlan {
    pub direction: QuickSwitchState,
    pub primary: MonitorInfo,
    pub controlled: Vec<MonitorInfo>,
    pub outputs: Vec<OutputLayout>,
    pub steps: Vec<InputStep>,
    pub primary_position: Option<(i32, i32)>,
}

/// The refusals of a quick switch.
pub open spec fn already_running() -> Seq<char> {
    "A quick switch is already running."@
}

pub open spec fn no_primary() -> Seq<char> {
    "No primary display is currently available."@
}

pub open spec fn none_selected() -> Seq<char> {
    "No external monitors are selected for quick switch."@
}

/// A quick-switch plan is what the snapshot and settings call for.
pub open spec fn plan_matches(p: QuickSwitchPlan, v: Seq<MonitorView>, cfg: ConfigView) -> bool {
    let controlled = controlled_spec(v, cfg.monitor_settings);
    &&& primary_choice(v, cfg.primary_monitor_id) matches Some(i) && p.primary@ == v[i]
    &&& controlled.len() > 0
    &&& monitors_view(p.controlled@) == controlled
    &&& p.direction == desired_direction(any_active(controlled))
    &&& layouts_view(p.outputs@) == controlled.map_values(|m: MonitorView| layout_for(cfg.monitor_settings, m))
    &&& p.steps@.map_values(|s: InputStep| step_view(s)) == controlled.map_values(
        |m: MonitorView| input_step(cfg.monitor_settings, m, p.direction),
    )
    &&& p.primary_position == restore_position(cfg.monitor_settings, p.primary@)
}

fn layout_exec(config: &AppConfig, m: &MonitorInfo) -> (r: OutputLayout)
    ensures
        layout_view(r) == layout_for(config@.monitor_settings, m@),
{
    match config.settings(m.id.as_str()) {
        Some(s) => OutputLayout {
            name: m.output_name.clone(),
            position: match (s.saved_position_x, s.saved_position_y) {
                (Some(x), Some(y)) => Some((x, y)),
                _ => None,
            },
            size: match (s.saved_width, s.saved_height) {
                (Some(w), Some(h)) => Some((w, h)),
                _ => None,
            },
        },
        None => OutputLayout { name: m.output_name.clone(), position: None, size: None },
    }
}

fn input_step_exec(config: &AppConfig, m: &MonitorInfo, direction: QuickSwitchState) -> (r: InputStep)
    ensures
        step_view(r) == input_step(config@.monitor_settings, m@, direction),
{
    let desired: Option<String> = match config.settings(m.id.as_str()) {
        Some(s) => match direction {
            QuickSwitchState::ControlledMonitorsOff => match &s.toggle_input {
                Some(x) => Some(x.clone()),
                None => None,
            },
            QuickSwitchState::ControlledMonitorsOn => match &s.laptop_input {
                Some(x) => Some(x.clone()),
                None => None,
            },
        },
        None => None,
    };
    match (&m.ddc, desired) {
        (Some(d), Some(input)) => InputStep::Switch { display_number: d.display_number, input },
        (None, _) => {
            let mut n = chars_of(m.display_name.as_str());
            push_str(&mut n, ": input switching is not available");
            InputStep::Note(to_string(n.as_slice()))
        },
        (Some(_), None) => {
            let mut n = chars_of(m.display_name.as_str());
            push_str(&mut n, ": no ");
            push_str(
                &mut n,
                if direction == QuickSwitchState::ControlledMonitorsOff {
                    "toggle-to"
                } else {
                    "laptop"
                },
            );
            push_str(&mut n, " input is configured");
            assert(n@ =~= m.display_name@ + ": no "@ + (if direction == QuickSwitchState::ControlledMonitorsOff {
                "toggle-to"@
            } else {
                "laptop"@
            }) + " input is configured"@);
            InputStep::Note(to_string(n.as_slice()))
        },
    }
}

fn restore_position_exec(config: &AppConfig, primary: &MonitorInfo) -> (r: Option<(i32, i32)>)
    ensures
        r == restore_position(config@.monitor_settings, primary@),
{
    match config.settings(primary.id.as_str()) {
        Some(s) => match (s.saved_position_x, s.saved_position_y) {
            (Some(x), Some(y)) => Some((x, y)),
            _ => primary.position,
        },
        None => None,
    }
}

/// When the controlled monitors come back, the primary display goes to its
/// saved position whenever both of its coordinates are saved, whatever its
/// current position is; its current position counts only when no complete
/// saved position exists; without settings it goes nowhere in particular.
pub proof fn law_restore_prefers_saved(settings: Seq<MonitorSettingsView>, primary: MonitorView, moved: Option<(i32, i32)>)
    ensures
        (lookup(settings, primary.id) matches Some(s) && s.saved_position_x is Some && s.saved_position_y is Some) ==> restore_position(
            settings,
            primary,
        ) == Some((lookup(settings, primary.id)->0.saved_position_x->0, lookup(settings, primary.id)->0.saved_position_y->0)),
        (lookup(settings, primary.id) matches Some(s) && !(s.saved_position_x is Some && s.saved_position_y is Some))
            ==> restore_position(settings, primary) == primary.position,
        lookup(settings, primary.id) is None ==> restore_position(settings, primary) is None,
        (lookup(settings, primary.id) matches Some(s) && s.saved_position_x is Some && s.saved_position_y is Some) ==> restore_position(
            settings,
            MonitorView { position: moved, ..primary },
        ) == restore_position(settings, primary),
{
}

/// A quick-switch plan puts the primary display back at its saved position
/// whenever both coordinates are saved, else where it is now.
pub proof fn law_plan_primary_position(p: QuickSwitchPlan, v: Seq<MonitorView>, cfg: ConfigView)
    requires
        plan_matches(p, v, cfg),
    ensures
        (lookup(cfg.monitor_settings, p.primary@.id) matches Some(s) && s.saved_position_x is Some && s.saved_position_y is Some)
            ==> p.primary_position == Some(
            (
                lookup(cfg.monitor_settings, p.primary@.id)->0.saved_position_x->0,
                lookup(cfg.monitor_settings, p.primary@.id)->0.saved_position_y->0,
            ),
        ),
        (lookup(cfg.monitor_settings, p.primary@.id) matches Some(s) && !(s.saved_position_x is Some && s.saved_position_y is Some))
            ==> p.primary_position == p.primary@.position,
{
    law_restore_prefers_saved(cfg.monitor_settings, p.primary@, None);
}

/// Decides a quick switch: refused while another runs, without a primary
/// display, or without controlled monitors; otherwise the direction, the
/// outputs to lay out, the input of each controlled monitor, and where the
/// primary display goes.
pub fn quick_switch(switch_in_progress: bool, snapshot: &MonitorSnapshot, config: &AppConfig) -> (r: Result<QuickSwitchPlan, String>)
    ensures
        match r {
            Ok(p) => !switch_in_progress && plan_matches(p, snapshot@, config@) && plan_wf(p),
            Err(e) => {
                if switch_in_progress {
                    e@ == already_running()
                } else if primary_choice(snapshot@, config@.primary_monitor_id) is None {
                    e@ == no_primary()
                } else {
                    controlled_spec(snapshot@, config@.monitor_settings).len() == 0 && e@ == none_selected()
                }
            },
        },
{
    if switch_in_progress {
        return Err(String::from_str("A quick switch is already running."));
    }
    let primary = match resolve_primary(snapshot, config) {
        Some(p) => p,
        None => {
            return Err(String::from_str("No primary display is currently available."));
        },
    };
    let controlled = controlled_monitors(snapshot, config);
    if controlled.len() == 0 {
        return Err(String::from_str("No external monitors are selected for quick switch."));
    }
    let direction = infer_desired_switch_direction(config, snapshot, controlled.as_slice());
    let ghost cv = monitors_view(controlled@);
    let mut outputs: Vec<OutputLayout> = Vec::new();
    let mut steps: Vec<InputStep> = Vec::new();
    let mut i: usize = 0;
    while i < controlled.len()
        invariant
            cv == monitors_view(controlled@),
            i <= cv.len(),
            layouts_view(outputs@) == cv.subrange(0, i as int).map_values(|m: MonitorView| layout_for(config@.monitor_settings, m)),
            steps@.map_values(|s: InputStep| step_view(s)) == cv.subrange(0, i as int).map_values(
                |m: MonitorView| input_step(config@.monitor_settings, m, direction),
            ),
        decreases cv.len() - i,
    {
        let l = layout_exec(config, &controlled[i]);
        let st = input_step_exec(config, &controlled[i], direction);
        let ghost ob = outputs@;
        let ghost sb = steps@;
        assert(cv[i as int] == controlled@[i as int]@);
        outputs.push(l);
        steps.push(st);
        assert(layouts_view(outputs@) =~= layouts_view(ob).push(layout_view(outputs@[i as int])));
        assert(steps@.map_values(|s: InputStep| step_view(s)) =~= sb.map_values(|s: InputStep| step_view(s)).push(step_view(steps@[i as int])));
        i += 1;
        assert(layouts_view(outputs@) =~= cv.subrange(0, i as int).map_values(|m: MonitorView| layout_for(config@.monitor_settings, m)));
        assert(steps@.map_values(|s: InputStep| step_view(s)) =~= cv.subrange(0, i as int).map_values(
            |m: MonitorView| input_step(config@.monitor_settings, m, direction),
        ));
    }
    assert(cv.subrange(0, cv.len() as int) =~= cv);
    let primary_position = restore_position_exec(config, &primary);
    assert(steps@.map_values(|s: InputStep| step_view(s)).len() == steps@.len());
    assert(layouts_view(outputs@).len() == outputs@.len());
    Ok(QuickSwitchPlan { direction, primary, controlled, outputs, steps, primary_position })
}

/// A plan controls at least one monitor, and has one output and one input
/// step for each.
pub open spec fn plan_wf(p: QuickSwitchPlan) -> bool {
    &&& p.controlled@.len() > 0
    &&& p.outputs@.len() == p.controlled@.len()
    &&& p.steps@.len() == p.controlled@.len()
}

/// How one input step of a quick switch went.
#[derive(Debug)]
pub enum InputOutcome {
    /// No command was sent.
    Skipped,
    /// The switch command failed with this error.
    Failed(String),
    /// The command was sent and the monitor shows the new input.
    Switched,
    /// The command was sent, but reading the input back failed with this error.
    Unverified(String),
}

/// The note an input step leaves: the step's own note, or what went wrong
/// with its command.
pub open spec fn step_note(step: InputStep, name: Seq<char>, o: InputOutcome) -> Option<Seq<char>> {
    match step {
        InputStep::Note(n) => Some(n@),
        InputStep::Switch { .. } => match o {
            InputOutcome::Failed(e) => Some(name + ": "@ + e@),
            InputOutcome::Unverified(e) => Some(name + ": "@ + "switch command sent but verification failed: "@ + e@),
            _ => None,
        },
    }
}

/// The notes of the first `k` input steps, in order.
pub open spec fn input_notes(plan: QuickSwitchPlan, outcomes: Seq<InputOutcome>, k: nat) -> Seq<Seq<char>>
    decreases k,
{
    if k == 0 {
        Seq::empty()
    } else {
        let prev = input_notes(plan, outcomes, (k - 1) as nat);
        match step_note(plan.steps@[k - 1], plan.controlled@[k - 1].display_name@, outcomes[k - 1]) {
            Some(n) => prev.push(n),
            None => prev,
        }
    }
}

/// How many of the first `k` input steps send a command.
pub open spec fn attempts_upto(steps: Seq<InputStep>, k: nat) -> nat
    decreases k,
{
    if k == 0 {
        0
    } else {
        attempts_upto(steps, (k - 1) as nat) + if steps[k - 1] is Switch { 1nat } else { 0nat }
    }
}

/// How many of the first `k` input steps sent their command successfully.
pub open spec fn switched_upto(steps: Seq<InputStep>, outcomes: Seq<InputOutcome>, k: nat) -> nat
    decreases k,
{
    if k == 0 {
        0
    } else {
        switched_upto(steps, outcomes, (k - 1) as nat) + if steps[k - 1] is Switch && (outcomes[k - 1] is Switched
            || outcomes[k - 1] is Unverified) {
            1nat
        } else {
            0nat
        }
    }
}

/// The note the layout check leaves when it failed.
pub open spec fn layout_note(direction: QuickSwitchState, check: Result<(), Seq<char>>) -> Seq<Seq<char>> {
    match check {
        Ok(_) => Seq::empty(),
        Err(e) => seq![
            (if direction == QuickSwitchState::ControlledMonitorsOff {
                "layout verification after disable"@
            } else {
                "layout verification after restore"@
            }) + ": "@ + e,
        ],
    }
}

pub open spec fn check_view(check: Result<(), String>) -> Result<(), Seq<char>> {
    match check {
        Ok(_) => Ok(()),
        Err(e) => Err(e@),
    }
}

/// All notes of a quick switch: when turning off, the layout check comes
/// first (the layout changes before the inputs); when turning on, last.
pub open spec fn outcome_notes(plan: QuickSwitchPlan, check: Result<(), Seq<char>>, outcomes: Seq<InputOutcome>) -> Seq<Seq<char>> {
    let inputs = input_notes(plan, outcomes, plan.steps@.len());
    if plan.direction == QuickSwitchState::ControlledMonitorsOff {
        layout_note(plan.direction, check) + inputs
    } else {
        inputs + layout_note(plan.direction, check)
    }
}

fn step_note_exec(step: &InputStep, name: &String, o: &InputOutcome) -> (r: Option<String>)
    ensures
        text_opt(r) == step_note(*step, name@, *o),
{
    match step {
        InputStep::Note(n) => Some(n.clone()),
        InputStep::Switch { .. } => match o {
            InputOutcome::Failed(e) => Some(note(name.as_str(), e.as_str())),
            InputOutcome::Unverified(e) => {
                let mut d = chars_of("switch command sent but verification failed: ");
                push_str(&mut d, e.as_str());
                let r = note(name.as_str(), to_string(d.as_slice()).as_str());
                assert(r@ =~= name@ + ": "@ + "switch command sent but verification failed: "@ + e@);
                Some(r)
            },
            _ => None,
        },
    }
}

/// The report of a quick switch whose layout change went through: the layout
/// check's result (`layout_check`) and one outcome per input step, in order,
/// give the counts and the notes. Every step that sends a command is an
/// attempt; a command sent, read back or not, is a switched input.
pub fn quick_switch_outcome(plan: &QuickSwitchPlan, layout_check: Result<(), String>, outcomes: Vec<InputOutcome>) -> (r: QuickSwitchReport)
    requires
        plan.steps@.len() == plan.controlled@.len(),
        outcomes@.len() == plan.steps@.len(),
    ensures
        r.state == plan.direction,
        r.controlled_monitors == plan.controlled@.len(),
        r.output_count == plan.outputs@.len(),
        r.layout_changed,
        r.input_attempts == attempts_upto(plan.steps@, plan.steps@.len()),
        r.switched_inputs == switched_upto(plan.steps@, outcomes@, plan.steps@.len()),
        r.switched_inputs <= r.input_attempts <= plan.controlled@.len(),
        views(r.notes@) == outcome_notes(*plan, check_view(layout_check), outcomes@),
{
    let n = plan.steps.len();
    let mut inputs: Vec<String> = Vec::new();
    let mut attempts: usize = 0;
    let mut switched: usize = 0;
    let mut k: usize = 0;
    while k < n
        invariant
            n == plan.steps@.len(),
            n == plan.controlled@.len(),
            n == outcomes@.len(),
            k <= n,
            views(inputs@) == input_notes(*plan, outcomes@, k as nat),
            attempts == attempts_upto(plan.steps@, k as nat),
            switched == switched_upto(plan.steps@, outcomes@, k as nat),
            switched <= attempts <= k,
        decreases n - k,
    {
        let step = &plan.steps[k];
        let o = &outcomes[k];
        let ghost before = views(inputs@);
        match step {
            InputStep::Switch { .. } => {
                attempts = attempts + 1;
                match o {
                    InputOutcome::Switched => {
                        switched = switched + 1;
                    },
                    InputOutcome::Unverified(_) => {
                        switched = switched + 1;
                    },
                    _ => {},
                }
            },
            InputStep::Note(_) => {},
        }
        match step_note_exec(step, &plan.controlled[k].display_name, o) {
            Some(t) => {
                let ghost tv = t@;
                inputs.push(t);
                assert(views(inputs@) =~= before.push(tv));
            },
            None => {
                assert(views(inputs@) =~= before);
            },
        }
        k += 1;
    }
    let mut notes: Vec<String> = Vec::new();
    let off = plan.direction == QuickSwitchState::ControlledMonitorsOff;
    let layout_text: Option<String> = match &layout_check {
        Ok(_) => None,
        Err(e) => Some(note(
            if off {
                "layout verification after disable"
            } else {
                "layout verification after restore"
            },
            e.as_str(),
        )),
    };
    let ghost ln = layout_note(plan.direction, check_view(layout_check));
    if off {
        if let Some(t) = layout_text {
            notes.push(t);
        }
        let ghost head = views(notes@);
        assert(head =~= ln);
        let mut j: usize = 0;
        while j < inputs.len()
            invariant
                views(notes@) == head + views(inputs@).subrange(0, j as int),
                j <= inputs@.len(),
            decreases inputs@.len() - j,
        {
            let ghost nb = views(notes@);
            let t = inputs[j].clone();
            assert(t@ == inputs@[j as int]@);
            notes.push(t);
            assert(views(notes@) =~= nb.push(inputs@[j as int]@));
            assert(views(inputs@).subrange(0, j + 1) =~= views(inputs@).subrange(0, j as int).push(inputs@[j as int]@));
            assert(views(notes@) =~= head + views(inputs@).subrange(0, j + 1));
            j += 1;
        }
        assert(views(inputs@).subrange(0, inputs@.len() as int) =~= views(inputs@));
    } else {
        let ghost iv = views(inputs@);
        notes = inputs;
        if let Some(t) = layout_text {
            notes.push(t);
        }
        assert(views(notes@) =~= iv + ln);
    }
    quick_switch_report(plan, true, attempts, switched, notes)
}

/// The report of a finished quick switch.
pub fn quick_switch_report(
    plan: &QuickSwitchPlan,
    layout_changed: bool,
    input_attempts: usize,
    switched_inputs: usize,
    notes: Vec<String>,
) -> (r: QuickSwitchReport)
    ensures
        r.state == plan.direction,
        r.controlled_monitors == plan.controlled@.len(),
        r.output_count == plan.outputs@.len(),
        r.layout_changed == layout_changed,
        r.input_attempts == input_attempts,
        r.switched_inputs == switched_inputs,
        r.notes == notes,
{
    QuickSwitchReport {
        state: plan.direction,
        controlled_monitors: plan.controlled.len(),
        output_count: plan.outputs.len(),
        layout_changed,
        input_attempts,
        switched_inputs,
        notes,
    }
}

/// One stage of carrying out a quick-switch plan.
#[derive(Clone, Copy, Debug, PartialEq, Eq, Structural)]
pub enum QuickSwitchAction {
    /// Turn the plan's outputs off, leaving the primary display.
    DisableOutputs,
    /// Carry out the plan's input steps, in order.
    SwitchInputs,
    /// Turn the plan's outputs back on at their saved places.
    EnableOutputs,
}

/// The stages of a quick switch, in order: when turning the controlled
/// monitors off, their outputs go off before any input switches; when turning
/// them on, the inputs switch first and the layout is restored after.
pub open spec fn actions_for(direction: QuickSwitchState) -> Seq<QuickSwitchAction> {
    match direction {
        QuickSwitchState::ControlledMonitorsOff => seq![QuickSwitchAction::DisableOutputs, QuickSwitchAction::SwitchInputs],
        QuickSwitchState::ControlledMonitorsOn => seq![QuickSwitchAction::SwitchInputs, QuickSwitchAction::EnableOutputs],
    }
}

/// The stages in which a quick-switch plan is carried out.
pub fn quick_switch_actions(plan: &QuickSwitchPlan) -> (r: Vec<QuickSwitchAction>)
    ensures
        r@ == actions_for(plan.direction),
{
    let mut r: Vec<QuickSwitchAction> = Vec::new();
    match plan.direction {
        QuickSwitchState::ControlledMonitorsOff => {
            r.push(QuickSwitchAction::DisableOutputs);
            r.push(QuickSwitchAction::SwitchInputs);
        },
        QuickSwitchState::ControlledMonitorsOn => {
            r.push(QuickSwitchAction::SwitchInputs);
            r.push(QuickSwitchAction::EnableOutputs);
        },
    }
    assert(r@ =~= actions_for(plan.direction));
    r
}

/// `<prefix>: <detail>`, the form of a quick-switch note.
pub fn note(prefix: &str, detail: &str) -> (r: String)
    ensures
        r@ == prefix@ + ": "@ + detail@,
{
    let mut n = chars_of(prefix);
    push_str(&mut n, ": ");
    push_str(&mut n, detail);
    to_string(n.as_slice())
}

/// The outputs a layout change waits for are each listed, connected, and
/// active (with a mode) exactly when `expected_active`.
pub open spec fn outputs_settled(names: Seq<Seq<char>>, v: Seq<crate::display::OutputView>, expected_active: bool) -> bool {
    forall|k: int| 0 <= k < names.len() ==> {
        let n = #[trigger] names[k];
        &&& crate::display::has_named(v, n)
        &&& v[crate::display::first_named(v, n)].connected
        &&& (v[crate::display::first_named(v, n)].current_mode is Some) == expected_active
    }
}

/// Whether the listed outputs show the layout change as done.
pub fn outputs_in_state(output_names: &[String], expected_active: bool, outputs: &[crate::display::DisplayOutput]) -> (b: bool)
    ensures
        b == outputs_settled(views(output_names@), crate::display::outputs_view(outputs@), expected_active),
{
    let ghost v = crate::display::outputs_view(outputs@);
    let ghost names = views(output_names@);
    let mut i: usize = 0;
    while i < output_names.len()
        invariant
            v == crate::display::outputs_view(outputs@),
            names == views(output_names@),
            i <= names.len(),
            forall|k: int| 0 <= k < i ==> {
                let n = #[trigger] names[k];
                &&& crate::display::has_named(v, n)
                &&& v[crate::display::first_named(v, n)].connected
                &&& (v[crate::display::first_named(v, n)].current_mode is Some) == expected_active
            },
        decreases names.len() - i,
    {
        assert(names[i as int] == output_names@[i as int]@);
        match crate::display::find_output(outputs, output_names[i].as_str()) {
            Some(o) => {
                proof {
                    let j = choose|j: int| crate::display::is_first_named(v, names[i as int], j) && o == outputs@[j];
                    let f = crate::display::first_named(v, names[i as int]);
                    assert(crate::display::has_named(v, names[i as int])) by {
                        assert(v[j].name == names[i as int]);
                    }
                    assert(crate::display::is_first_named(v, names[i as int], f));
                    if j < f {
                        assert(v[j].name == names[i as int]);
                    } else if f < j {
                        assert(v[f].name == names[i as int]);
                    }
                }
                if !(o.connected && o.current_mode.is_some() == expected_active) {
                    return false;
                }
            },
            None => {
                return false;
            },
        }
        i += 1;
    }
    true
}

/// Whether a `getvcp` reply shows the expected input.
pub fn input_reached(reply: &str, expected_input: &str) -> (b: bool)
    ensures
        b == (current_input_scan(reply@, input_markers()) == Some(expected_input@)),
{
    match parse_current_input(reply) {
        Some(current) => {
            let c = chars_of(current.as_str());
            let e = chars_of(expected_input);
            eq_chars(c.as_slice(), e.as_slice())
        },
        None => false,
    }
}

/// Records the direction of a finished quick switch.
pub fn record_quick_switch(config: &mut AppConfig, direction: QuickSwitchState)
    ensures
        final(config)@.last_quick_switch_state == Some(direction),
        final(config)@.primary_monitor_id == old(config)@.primary_monitor_id,
        final(config)@.monitor_settings == old(config)@.monitor_settings,
{
    config.last_quick_switch_state = Some(direction);
}

/// The detail of a failed command: its error output, trimmed, unless that is
/// empty; else its standard output, trimmed.
pub open spec fn failure_detail_spec(stderr: Seq<char>, stdout: Seq<char>) -> Seq<char> {
    if trim(stderr).len() > 0 {
        trim(stderr)
    } else {
        trim(stdout)
    }
}

/// The detail of a failed command.
pub fn failure_detail(stderr: &str, stdout: &str) -> (r: String)
    ensures
        r@ == failure_detail_spec(stderr@, stdout@),
{
    let e = chars_of(stderr);
    let te = crate::text::trim_chars(e.as_slice());
    if te.len() > 0 {
        to_string(te.as_slice())
    } else {
        let o = chars_of(stdout);
        let to = crate::text::trim_chars(o.as_slice());
        to_string(to.as_slice())
    }
}

/// The error of a command that exited unsuccessfully: `<program>: <detail>`,
/// or `<program> exited with status <status>` without detail.
pub fn command_failure_message(program: &str, detail: &str, status: &str) -> (r: String)
    ensures
        r@ == if detail@.len() == 0 {
            program@ + " exited with status "@ + status@
        } else {
            program@ + ": "@ + detail@
        },
{
    let mut v = chars_of(program);
    if detail.unicode_len() == 0 {
        push_str(&mut v, " exited with status ");
        push_str(&mut v, status);
    } else {
        push_str(&mut v, ": ");
        push_str(&mut v, detail);
    }
    to_string(v.as_slice())
}

/// The error of a command that ran out of time: `<program>: timed out after
/// <ms> ms`, with the detail in brackets when there is one.
pub fn command_timeout_message(program: &str, timeout_ms: u64, detail: &str) -> (r: String)
    ensures
        r@ == program@ + ": timed out after "@ + dec(timeout_ms as nat) + " ms"@ + if detail@.len() == 0 {
            Seq::<char>::empty()
        } else {
            " ("@ + detail@ + ")"@
        },
{
    let mut v = chars_of(program);
    push_str(&mut v, ": timed out after ");
    push_dec(&mut v, timeout_ms);
    push_str(&mut v, " ms");
    let ghost head = v@;
    if detail.unicode_len() > 0 {
        push_str(&mut v, " (");
        push_str(&mut v, detail);
        push_str(&mut v, ")");
        assert(v@ =~= head + (" ("@ + detail@ + ")"@));
    } else {
        assert(v@ =~= head + Seq::<char>::empty());
    }
    to_string(v.as_slice())
}

// ---------------------------------------------------------------------------
// Laws of the settings
// ---------------------------------------------------------------------------

proof fn lemma_sync_step(p: Seq<MonitorSettingsView>, m: MonitorView, id: Seq<char>)
    ensures
        lookup(sync_step(p, m), m.id) is Some,
        lookup(sync_step(p, m), m.id)->0.display_name == m.display_name,
        lookup(sync_step(p, m), m.id)->0.laptop_input == synced_laptop_input(lookup(p, m.id), m),
        id != m.id ==> lookup(sync_step(p, m), id) == lookup(p, id),
        match lookup(p, id) {
            Some(x) => x.laptop_input is Some ==> (lookup(sync_step(p, m), id) matches Some(y) && y.laptop_input == x.laptop_input),
            None => true,
        },
{
    let u = upsert(p, m.id, m.display_name);
    let k = upsert_index(p, m.id);
    crate::config::lemma_upsert_index(p, m.id, m.display_name);
    crate::config::lemma_find_settings_first(p, m.id);
    let x = sync_step(p, m)[k];
    assert(sync_step(p, m) =~= written(p, m.id, m.display_name, x));
    law_write_then_lookup(p, m.id, m.display_name, x, id);
}

/// Bringing the settings in step with a snapshot gives every monitor of the
/// snapshot settings under its current name, and never changes a laptop input
/// already set.
pub proof fn law_sync_settings(s: Seq<MonitorSettingsView>, v: Seq<MonitorView>, id: Seq<char>)
    ensures
        forall|k: int| 0 <= k < v.len() ==> lookup(sync_settings(s, v), (#[trigger] v[k]).id) is Some,
        match lookup(s, id) {
            Some(x) => x.laptop_input is Some ==> (lookup(sync_settings(s, v), id) matches Some(y) && y.laptop_input == x.laptop_input),
            None => true,
        },
    decreases v.len(),
{
    if v.len() > 0 {
        let d = v.drop_last();
        law_sync_settings(s, d, id);
        let prev = sync_settings(s, d);
        let m = v.last();
        lemma_sync_step(prev, m, id);
        assert forall|k: int| 0 <= k < v.len() implies lookup(sync_settings(s, v), (#[trigger] v[k]).id) is Some by {
            lemma_sync_step(prev, m, v[k].id);
            if k < v.len() - 1 {
                assert(v[k] == d[k]);
                law_sync_settings(s, d, v[k].id);
            }
        }
    }
}

/// The laptop input a monitor's settings have after a sync: the one already
/// set, else the monitor's current input when it is active, else none.
pub open spec fn synced_laptop_input(before: Option<MonitorSettingsView>, m: MonitorView) -> Option<Seq<char>> {
    let set = match before {
        Some(x) => x.laptop_input,
        None => None,
    };
    if set is Some {
        set
    } else if m.active && (m.ddc matches Some(d) && d.current_input is Some) {
        m.ddc->0.current_input
    } else {
        None
    }
}

proof fn lemma_sync_untouched(s: Seq<MonitorSettingsView>, v: Seq<MonitorView>, id: Seq<char>)
    requires
        forall|k: int| 0 <= k < v.len() ==> (#[trigger] v[k]).id != id,
    ensures
        lookup(sync_settings(s, v), id) == lookup(s, id),
    decreases v.len(),
{
    if v.len() > 0 {
        let d = v.drop_last();
        assert forall|k: int| 0 <= k < d.len() implies (#[trigger] d[k]).id != id by {
            assert(d[k] == v[k]);
        }
        lemma_sync_untouched(s, d, id);
        assert(v[v.len() - 1].id != id);
        lemma_sync_step(sync_settings(s, d), v.last(), id);
    }
}

/// After a sync with a snapshot whose monitors have distinct ids, every
/// monitor's settings carry its current display name, and its laptop input is
/// the one already set, else its current input when it is active; the primary
/// id is the primary display's, which is the configured one whenever that one
/// is connected.
pub proof fn law_sync_each_monitor(s: Seq<MonitorSettingsView>, v: Seq<MonitorView>, primary_id: Option<Seq<char>>)
    requires
        forall|i: int, j: int| 0 <= i < j < v.len() ==> (#[trigger] v[i]).id != (#[trigger] v[j]).id,
    ensures
        forall|k: int| 0 <= k < v.len() ==> {
            let m = #[trigger] v[k];
            &&& lookup(sync_settings(s, v), m.id) matches Some(x)
            &&& x.display_name == m.display_name
            &&& x.laptop_input == synced_laptop_input(lookup(s, m.id), m)
        },
        synced_primary(v, primary_id) == match primary_choice(v, primary_id) {
            Some(i) => Some(v[i].id),
            None => None::<Seq<char>>,
        },
        (primary_id matches Some(id) && exists|k: int| 0 <= k < v.len() && (#[trigger] v[k]).id == id && v[k].connected)
            ==> synced_primary(v, primary_id) == primary_id,
    decreases v.len(),
{
    law_primary_choice(v, primary_id);
    if v.len() > 0 {
        let d = v.drop_last();
        let m = v.last();
        assert forall|i: int, j: int| 0 <= i < j < d.len() implies (#[trigger] d[i]).id != (#[trigger] d[j]).id by {
            assert(d[i] == v[i] && d[j] == v[j]);
        }
        law_sync_each_monitor(s, d, primary_id);
        let prev = sync_settings(s, d);
        assert forall|k: int| 0 <= k < v.len() implies {
            let n = #[trigger] v[k];
            &&& lookup(sync_settings(s, v), n.id) matches Some(x)
            &&& x.display_name == n.display_name
            &&& x.laptop_input == synced_laptop_input(lookup(s, n.id), n)
        } by {
            if k < v.len() - 1 {
                assert(v[k] == d[k]);
                assert(v[k].id != m.id);
                lemma_sync_step(prev, m, v[k].id);
            } else {
                assert forall|j: int| 0 <= j < d.len() implies (#[trigger] d[j]).id != m.id by {
                    assert(d[j] == v[j]);
                }
                lemma_sync_untouched(s, d, m.id);
                lemma_sync_step(prev, m, m.id);
            }
        }
    }
}

/// After a settings change, a monitor's settings read back as the last change
/// for it gave them: its name, its inputs, and quick-switch inclusion; an
/// internal monitor is never included and has no toggle-to input.
pub proof fn law_apply_settings(s: Seq<MonitorSettingsView>, us: Seq<SettingsMonitorUpdate>)
    requires
        us.len() > 0,
    ensures
        ({
            let u = us.last();
            &&& lookup(apply_updates(s, us), u.id@) matches Some(x)
            &&& x.display_name == u.display_name@
            &&& x.include_in_quick_switch == (!u.internal && u.include_in_quick_switch)
            &&& x.laptop_input == opt_view(u.laptop_input)
            &&& x.toggle_input == (if u.internal { None } else { opt_view(u.toggle_input) })
        }),
{
    let u = us.last();
    let prev = apply_updates(s, us.drop_last());
    let k = upsert_index(prev, u.id@);
    crate::config::lemma_upsert_index(prev, u.id@, u.display_name@);
    let x = apply_monitor_update(prev, u)[k];
    assert(apply_monitor_update(prev, u) =~= written(prev, u.id@, u.display_name@, x));
    law_write_then_lookup(prev, u.id@, u.display_name@, x, u.id@);
}

} // verus!
