//! Saving the current desktop layout into the settings: from KWin's own
//! output configuration when it describes the active outputs, else from the
//! positions in the snapshot.
use crate::app::layout_for;
use crate::config::{law_write_then_lookup, lemma_upsert_index, lookup, upsert, upsert_index, written, AppConfig, MonitorSettingsView};
use crate::monitor::{MonitorInfo, MonitorSnapshot, MonitorView};
use crate::text::{chars_of, dec, dec_int, join, join_strings, push_all, push_dec, push_dec_signed, push_str, to_string, views};
use vstd::prelude::*;

verus! {

/// An output in KWin's output configuration: its connector and mode size.
#[derive(Debug)]
pub struct KwinOutputMeta {
    pub connector_name: String,
    pub width: u32,
    pub height: u32,
}

/// An output of a KWin setup: whether it is on, which output it is (an index
/// into the outputs list) and where it sits.
#[derive(Debug)]
pub struct KwinSetupOutput {
    pub enabled: bool,
    pub output_index: usize,
    pub x: i32,
    pub y: i32,
}

/// One KWin setup: a set of outputs and where each goes.
#[derive(Debug)]
pub struct KwinSetup {
    pub outputs: Vec<KwinSetupOutput>,
}

/// A monitor's place in a saved layout.
#[derive(Debug)]
pub struct SavedLayoutEntry {
    pub monitor_id: String,
    pub display_name: String,
    pub output_name: String,
    pub position: (i32, i32),
    pub size: (u32, u32),
}

/// An entry as values.
pub struct EntryView {
    pub monitor_id: Seq<char>,
    pub display_name: Seq<char>,
    pub output_name: Seq<char>,
    pub position: (i32, i32),
    pub size: (u32, u32),
}

impl View for SavedLayoutEntry {
    type V = EntryView;

    open spec fn view(&self) -> EntryView {
        EntryView {
            monitor_id: self.monitor_id@,
            display_name: self.display_name@,
            output_name: self.output_name@,
            position: self.position,
            size: self.size,
        }
    }
}

pub open spec fn entries_view(v: Seq<SavedLayoutEntry>) -> Seq<EntryView> {
    v.map_values(|e: SavedLayoutEntry| e@)
}

pub open spec fn metas_view(v: Seq<KwinOutputMeta>) -> Seq<(Seq<char>, u32, u32)> {
    v.map_values(|m: KwinOutputMeta| (m.connector_name@, m.width, m.height))
}

// ---------------------------------------------------------------------------
// KWin's configuration
// ---------------------------------------------------------------------------

/// Some active monitor is on output `name`.
pub open spec fn is_active_name(v: Seq<MonitorView>, name: Seq<char>) -> bool {
    exists|i: int| 0 <= i < v.len() && (#[trigger] v[i]).active && v[i].output_name == name
}

/// Two active monitors are on different outputs.
pub open spec fn two_active_names(v: Seq<MonitorView>) -> bool {
    exists|i: int, j: int|
        0 <= i < v.len() && 0 <= j < v.len() && (#[trigger] v[i]).active && (#[trigger] v[j]).active && v[i].output_name
            != v[j].output_name
}

/// Setup output `k` is on and names a known output.
pub open spec fn counts(s: Seq<KwinSetupOutput>, metas: Seq<(Seq<char>, u32, u32)>, k: int) -> bool {
    s[k].enabled && s[k].output_index < metas.len()
}

/// Some output of the setup that is on has connector `name`.
pub open spec fn is_enabled_name(s: Seq<KwinSetupOutput>, metas: Seq<(Seq<char>, u32, u32)>, name: Seq<char>) -> bool {
    exists|k: int| 0 <= k < s.len() && #[trigger] counts(s, metas, k) && metas[s[k].output_index as int].0 == name
}

/// The setup's enabled outputs are exactly the active monitors' outputs.
pub open spec fn setup_matches(s: Seq<KwinSetupOutput>, metas: Seq<(Seq<char>, u32, u32)>, v: Seq<MonitorView>) -> bool {
    &&& forall|k: int| 0 <= k < s.len() && #[trigger] counts(s, metas, k) ==> is_active_name(v, metas[s[k].output_index as int].0)
    &&& forall|i: int| 0 <= i < v.len() && (#[trigger] v[i]).active ==> is_enabled_name(s, metas, v[i].output_name)
}

/// The index of the first monitor on output `name`.
pub open spec fn first_on_output(v: Seq<MonitorView>, name: Seq<char>) -> Option<int> {
    if exists|i: int| 0 <= i < v.len() && (#[trigger] v[i]).output_name == name {
        Some(choose|i: int| 0 <= i < v.len() && v[i].output_name == name && forall|j: int| 0 <= j < i ==> (#[trigger] v[j]).output_name != name)
    } else {
        None
    }
}

/// The entries a matching setup gives: for each of its enabled outputs, in
/// order, the first monitor on that output with the setup's position and the
/// output's mode size.
pub open spec fn setup_entries(s: Seq<KwinSetupOutput>, metas: Seq<(Seq<char>, u32, u32)>, v: Seq<MonitorView>) -> Seq<EntryView>
    decreases s.len(),
{
    if s.len() == 0 {
        Seq::empty()
    } else {
        let rest = setup_entries(s.drop_last(), metas, v);
        let o = s.last();
        if o.enabled && o.output_index < metas.len() {
            let meta = metas[o.output_index as int];
            match first_on_output(v, meta.0) {
                Some(i) => rest.push(
                    EntryView {
                        monitor_id: v[i].id,
                        display_name: v[i].display_name,
                        output_name: v[i].output_name,
                        position: (o.x, o.y),
                        size: (meta.1, meta.2),
                    },
                ),
                None => rest,
            }
        } else {
            rest
        }
    }
}

/// The layout KWin's configuration gives, from setup `k` on: the first setup
/// that matches the active outputs and gives some entry.
pub open spec fn kwin_from(setups: Seq<KwinSetup>, metas: Seq<(Seq<char>, u32, u32)>, v: Seq<MonitorView>, k: int) -> Option<Seq<EntryView>>
    decreases setups.len() - k,
{
    if k < 0 || k >= setups.len() {
        None
    } else if setup_matches(setups[k].outputs@, metas, v) && setup_entries(setups[k].outputs@, metas, v).len() > 0 {
        Some(setup_entries(setups[k].outputs@, metas, v))
    } else {
        kwin_from(setups, metas, v, k + 1)
    }
}

/// The layout KWin's configuration gives: none without outputs or setups, or
/// with fewer than two active outputs.
pub open spec fn kwin_layout_spec(setups: Seq<KwinSetup>, metas: Seq<(Seq<char>, u32, u32)>, v: Seq<MonitorView>) -> Option<Seq<EntryView>> {
    if metas.len() == 0 || setups.len() == 0 || !two_active_names(v) {
        None
    } else {
        kwin_from(setups, metas, v, 0)
    }
}

fn active_name_exec(monitors: &Vec<MonitorInfo>, name: &String) -> (b: bool)
    ensures
        b == is_active_name(crate::monitor::monitors_view(monitors@), name@),
{
    let ghost v = crate::monitor::monitors_view(monitors@);
    let mut i: usize = 0;
    while i < monitors.len()
        invariant
            v == crate::monitor::monitors_view(monitors@),
            i <= v.len(),
            forall|j: int| 0 <= j < i ==> !((#[trigger] v[j]).active && v[j].output_name == name@),
        decreases v.len() - i,
    {
        if monitors[i].active && monitors[i].output_name == *name {
            assert(v[i as int].active && v[i as int].output_name == name@);
            return true;
        }
        i += 1;
    }
    false
}

fn two_active_exec(monitors: &Vec<MonitorInfo>) -> (b: bool)
    ensures
        b == two_active_names(crate::monitor::monitors_view(monitors@)),
{
    let ghost v = crate::monitor::monitors_view(monitors@);
    let mut first: Option<usize> = None;
    let mut i: usize = 0;
    while i < monitors.len()
        invariant
            v == crate::monitor::monitors_view(monitors@),
            i <= v.len(),
            match first {
                Some(f) => f < i && v[f as int].active && forall|j: int| 0 <= j < i && (#[trigger] v[j]).active ==> v[j].output_name == v[f as int].output_name,
                None => forall|j: int| 0 <= j < i ==> !(#[trigger] v[j]).active,
            },
        decreases v.len() - i,
    {
        if monitors[i].active {
            match first {
                Some(f) => {
                    if !(monitors[i].output_name == monitors[f].output_name) {
                        assert(v[i as int].active && v[f as int].active && v[i as int].output_name != v[f as int].output_name);
                        return true;
                    }
                },
                None => {
                    first = Some(i);
                },
            }
        }
        i += 1;
    }
    proof {
        if two_active_names(v) {
            let (a, b) = choose|a: int, b: int|
                0 <= a < v.len() && 0 <= b < v.len() && (#[trigger] v[a]).active && (#[trigger] v[b]).active && v[a].output_name != v[b].output_name;
            assert(v[a].active);
            assert(v[b].active);
        }
    }
    false
}

fn enabled_name_exec(s: &Vec<KwinSetupOutput>, metas: &[KwinOutputMeta], name: &String) -> (b: bool)
    ensures
        b == is_enabled_name(s@, metas_view(metas@), name@),
{
    let ghost mv = metas_view(metas@);
    let mut k: usize = 0;
    while k < s.len()
        invariant
            mv == metas_view(metas@),
            k <= s@.len(),
            forall|q: int| 0 <= q < k ==> !(#[trigger] counts(s@, mv, q) && mv[s@[q].output_index as int].0 == name@),
        decreases s@.len() - k,
    {
        if s[k].enabled && s[k].output_index < metas.len() && metas[s[k].output_index].connector_name == *name {
            assert(counts(s@, mv, k as int) && mv[s@[k as int].output_index as int].0 == name@);
            return true;
        }
        k += 1;
    }
    false
}

fn setup_matches_exec(s: &Vec<KwinSetupOutput>, metas: &[KwinOutputMeta], monitors: &Vec<MonitorInfo>) -> (b: bool)
    ensures
        b == setup_matches(s@, metas_view(metas@), crate::monitor::monitors_view(monitors@)),
{
    let ghost mv = metas_view(metas@);
    let ghost v = crate::monitor::monitors_view(monitors@);
    let mut k: usize = 0;
    while k < s.len()
        invariant
            mv == metas_view(metas@),
            v == crate::monitor::monitors_view(monitors@),
            k <= s@.len(),
            forall|q: int| 0 <= q < k && #[trigger] counts(s@, mv, q) ==> is_active_name(v, mv[s@[q].output_index as int].0),
        decreases s@.len() - k,
    {
        if s[k].enabled && s[k].output_index < metas.len() {
            if !active_name_exec(monitors, &metas[s[k].output_index].connector_name) {
                assert(counts(s@, mv, k as int));
                return false;
            }
        }
        k += 1;
    }
    let mut i: usize = 0;
    while i < monitors.len()
        invariant
            mv == metas_view(metas@),
            v == crate::monitor::monitors_view(monitors@),
            i <= v.len(),
            forall|q: int| 0 <= q < s@.len() && #[trigger] counts(s@, mv, q) ==> is_active_name(v, mv[s@[q].output_index as int].0),
            forall|j: int| 0 <= j < i && (#[trigger] v[j]).active ==> is_enabled_name(s@, mv, v[j].output_name),
        decreases v.len() - i,
    {
        if monitors[i].active && !enabled_name_exec(s, metas, &monitors[i].output_name) {
            assert(v[i as int].active);
            return false;
        }
        i += 1;
    }
    true
}

fn first_on_output_exec(monitors: &Vec<MonitorInfo>, name: &String) -> (r: Option<usize>)
    ensures
        match r {
            Some(i) => first_on_output(crate::monitor::monitors_view(monitors@), name@) == Some(i as int) && i < monitors@.len(),
            None => first_on_output(crate::monitor::monitors_view(monitors@), name@) is None,
        },
{
    let ghost v = crate::monitor::monitors_view(monitors@);
    let mut i: usize = 0;
    while i < monitors.len()
        invariant
            v == crate::monitor::monitors_view(monitors@),
            i <= v.len(),
            forall|j: int| 0 <= j < i ==> (#[trigger] v[j]).output_name != name@,
        decreases v.len() - i,
    {
        if monitors[i].output_name == *name {
            proof {
                assert(v[i as int].output_name == name@);
                let c = choose|c: int| 0 <= c < v.len() && v[c].output_name == name@ && forall|j: int| 0 <= j < c ==> (#[trigger] v[j]).output_name != name@;
                if c < i {
                    assert(v[c].output_name == name@);
                } else if i < c {
                    assert(v[i as int].output_name == name@);
                }
            }
            return Some(i);
        }
        i += 1;
    }
    None
}

fn setup_entries_exec(s: &Vec<KwinSetupOutput>, metas: &[KwinOutputMeta], monitors: &Vec<MonitorInfo>) -> (r: Vec<SavedLayoutEntry>)
    ensures
        entries_view(r@) == setup_entries(s@, metas_view(metas@), crate::monitor::monitors_view(monitors@)),
{
    let ghost mv = metas_view(metas@);
    let ghost v = crate::monitor::monitors_view(monitors@);
    let mut r: Vec<SavedLayoutEntry> = Vec::new();
    let mut k: usize = 0;
    assert(s@.subrange(0, 0) =~= Seq::<KwinSetupOutput>::empty());
    while k < s.len()
        invariant
            mv == metas_view(metas@),
            v == crate::monitor::monitors_view(monitors@),
            k <= s@.len(),
            entries_view(r@) == setup_entries(s@.subrange(0, k as int), mv, v),
        decreases s@.len() - k,
    {
        let ghost w = s@.subrange(0, k + 1);
        assert(w.drop_last() =~= s@.subrange(0, k as int));
        assert(w.last() == s@[k as int]);
        let o = &s[k];
        if o.enabled && o.output_index < metas.len() {
            let meta = &metas[o.output_index];
            match first_on_output_exec(monitors, &meta.connector_name) {
                Some(i) => {
                    let m = &monitors[i];
                    let ghost before = entries_view(r@);
                    r.push(
                        SavedLayoutEntry {
                            monitor_id: m.id.clone(),
                            display_name: m.display_name.clone(),
                            output_name: m.output_name.clone(),
                            position: (o.x, o.y),
                            size: (meta.width, meta.height),
                        },
                    );
                    assert(entries_view(r@) =~= before.push(entries_view(r@).last()));
                },
                None => {},
            }
        }
        k += 1;
    }
    assert(s@.subrange(0, s@.len() as int) =~= s@);
    r
}

/// The layout KWin's output configuration gives for the snapshot's active
/// outputs, if any: `outputs` and `setups` are the configuration's two sections.
pub fn kwin_saved_layout(snapshot: &MonitorSnapshot, outputs: &[KwinOutputMeta], setups: &[KwinSetup]) -> (r: Option<Vec<SavedLayoutEntry>>)
    ensures
        match r {
            Some(es) => kwin_layout_spec(setups@, metas_view(outputs@), snapshot@) == Some(entries_view(es@)),
            None => kwin_layout_spec(setups@, metas_view(outputs@), snapshot@) is None,
        },
{
    let ghost mv = metas_view(outputs@);
    let ghost v = snapshot@;
    if outputs.len() == 0 || setups.len() == 0 || !two_active_exec(&snapshot.monitors) {
        return None;
    }
    let mut k: usize = 0;
    while k < setups.len()
        invariant
            mv == metas_view(outputs@),
            v == snapshot@,
            k <= setups@.len(),
            kwin_layout_spec(setups@, mv, v) == kwin_from(setups@, mv, v, k as int),
        decreases setups@.len() - k,
    {
        if setup_matches_exec(&setups[k].outputs, outputs, &snapshot.monitors) {
            let es = setup_entries_exec(&setups[k].outputs, outputs, &snapshot.monitors);
            if es.len() > 0 {
                return Some(es);
            }
        }
        k += 1;
    }
    None
}

// ---------------------------------------------------------------------------
// Saving
// ---------------------------------------------------------------------------

/// The settings with a monitor's position (and size, when given) saved; the
/// monitor gets settings if it had none, and its display name is updated.
pub open spec fn with_saved(
    s: Seq<MonitorSettingsView>,
    id: Seq<char>,
    name: Seq<char>,
    pos: (i32, i32),
    size: Option<(u32, u32)>,
) -> Seq<MonitorSettingsView> {
    let up = upsert(s, id, name);
    let k = upsert_index(s, id);
    up.update(
        k,
        MonitorSettingsView {
            monitor_id: up[k].monitor_id,
            display_name: up[k].display_name,
            include_in_quick_switch: up[k].include_in_quick_switch,
            laptop_input: up[k].laptop_input,
            toggle_input: up[k].toggle_input,
            saved_position_x: Some(pos.0),
            saved_position_y: Some(pos.1),
            saved_width: match size {
                Some((w, _)) => Some(w),
                None => up[k].saved_width,
            },
            saved_height: match size {
                Some((_, h)) => Some(h),
                None => up[k].saved_height,
            },
        },
    )
}

/// The settings with each KWin entry's position and size saved, in order.
pub open spec fn save_entries(s: Seq<MonitorSettingsView>, es: Seq<EntryView>) -> Seq<MonitorSettingsView>
    decreases es.len(),
{
    if es.len() == 0 {
        s
    } else {
        let e = es.last();
        with_saved(save_entries(s, es.drop_last()), e.monitor_id, e.display_name, e.position, Some(e.size))
    }
}

/// The active monitors that have a position, in snapshot order.
pub open spec fn placed(v: Seq<MonitorView>) -> Seq<MonitorView>
    decreases v.len(),
{
    if v.len() == 0 {
        Seq::empty()
    } else if v.last().active && v.last().position is Some {
        placed(v.drop_last()).push(v.last())
    } else {
        placed(v.drop_last())
    }
}

/// The monitors `placed` keeps are active and have a position.
pub proof fn lemma_placed(v: Seq<MonitorView>)
    ensures
        forall|q: int| 0 <= q < placed(v).len() ==> (#[trigger] placed(v)[q]).active && placed(v)[q].position is Some,
    decreases v.len(),
{
    if v.len() > 0 {
        lemma_placed(v.drop_last());
    }
}

/// No two of the monitors share a position.
pub open spec fn positions_distinct(ms: Seq<MonitorView>) -> bool {
    forall|i: int, j: int| 0 <= i < j < ms.len() ==> (#[trigger] ms[i]).position != (#[trigger] ms[j]).position
}

/// The settings with each placed monitor's position (and mode size, when it
/// has one) saved, in order.
pub open spec fn save_placed(s: Seq<MonitorSettingsView>, ms: Seq<MonitorView>) -> Seq<MonitorSettingsView>
    decreases ms.len(),
{
    if ms.len() == 0 {
        s
    } else {
        let m = ms.last();
        with_saved(save_placed(s, ms.drop_last()), m.id, m.display_name, m.position->0, m.current_mode)
    }
}

/// `<output>@<x>,<y> <w>x<h>` for a KWin entry.
pub open spec fn entry_text(e: EntryView) -> Seq<char> {
    e.output_name + "@"@ + dec_int(e.position.0 as int) + ","@ + dec_int(e.position.1 as int) + " "@ + dec(e.size.0 as nat) + "x"@
        + dec(e.size.1 as nat)
}

/// `<output>@<x>,<y>` for a placed monitor.
pub open spec fn placed_text(m: MonitorView) -> Seq<char> {
    let (x, y) = m.position->0;
    m.output_name + "@"@ + dec_int(x as int) + ","@ + dec_int(y as int)
}

pub open spec fn overlap_error() -> Seq<char> {
    "Could not save layout because active monitor positions are incomplete or overlapping."@
}

/// Saves a monitor's position (and size, when given) in the settings.
fn save_position(config: &mut AppConfig, id: &String, name: &String, pos: (i32, i32), size: Option<(u32, u32)>)
    ensures
        final(config)@.primary_monitor_id == old(config)@.primary_monitor_id,
        final(config)@.last_quick_switch_state == old(config)@.last_quick_switch_state,
        final(config)@.monitor_settings == with_saved(old(config)@.monitor_settings, id@, name@, pos, size),
{
    let st = config.settings_mut_or_insert(id.as_str(), name.as_str());
    st.saved_position_x = Some(pos.0);
    st.saved_position_y = Some(pos.1);
    if let Some((w, h)) = size {
        st.saved_width = Some(w);
        st.saved_height = Some(h);
    }
}

fn entry_text_exec(e: &SavedLayoutEntry) -> (r: String)
    ensures
        r@ == entry_text(e@),
{
    let mut v = chars_of(e.output_name.as_str());
    push_str(&mut v, "@");
    push_dec_signed(&mut v, e.position.0 as i64);
    push_str(&mut v, ",");
    push_dec_signed(&mut v, e.position.1 as i64);
    push_str(&mut v, " ");
    push_dec(&mut v, e.size.0 as u64);
    push_str(&mut v, "x");
    push_dec(&mut v, e.size.1 as u64);
    assert(v@ =~= entry_text(e@));
    to_string(v.as_slice())
}

fn placed_text_exec(m: &MonitorInfo) -> (r: String)
    requires
        m.position is Some,
    ensures
        r@ == placed_text(m@),
{
    let (x, y) = m.position.unwrap();
    let mut v = chars_of(m.output_name.as_str());
    push_str(&mut v, "@");
    push_dec_signed(&mut v, x as i64);
    push_str(&mut v, ",");
    push_dec_signed(&mut v, y as i64);
    assert(v@ =~= placed_text(m@));
    to_string(v.as_slice())
}

fn saved_message(parts: &Vec<String>) -> (r: String)
    ensures
        r@ == "Saved current layout: "@ + join(views(parts@), ", "@),
{
    let mut v = chars_of("Saved current layout: ");
    let j = join_strings(parts, ", ");
    push_all(&mut v, j.as_slice());
    to_string(v.as_slice())
}

/// Saves the current layout in the settings. A layout from KWin's
/// configuration (see `kwin_saved_layout`) is saved as it is; else the
/// positions (and mode sizes) of the active monitors with a position are
/// saved, when there are at least two and no two share a position.
pub fn save_current_layout(config: &mut AppConfig, snapshot: &MonitorSnapshot, kwin: Option<Vec<SavedLayoutEntry>>) -> (r: Result<String, String>)
    ensures
        final(config)@.primary_monitor_id == old(config)@.primary_monitor_id,
        final(config)@.last_quick_switch_state == old(config)@.last_quick_switch_state,
        match kwin {
            Some(es) => {
                &&& final(config)@.monitor_settings == save_entries(old(config)@.monitor_settings, entries_view(es@))
                &&& r matches Ok(msg) && msg@ == "Saved current layout: "@ + join(entries_view(es@).map_values(|e: EntryView| entry_text(e)), ", "@)
            },
            None => {
                let ms = placed(snapshot@);
                if ms.len() >= 2 && positions_distinct(ms) {
                    &&& final(config)@.monitor_settings == save_placed(old(config)@.monitor_settings, ms)
                    &&& r matches Ok(msg) && msg@ == "Saved current layout: "@ + join(ms.map_values(|m: MonitorView| placed_text(m)), ", "@)
                } else {
                    &&& final(config)@ == old(config)@
                    &&& r matches Err(e) && e@ == overlap_error()
                }
            },
        },
{
    match kwin {
        Some(es) => {
            let ghost ev = entries_view(es@);
            let ghost s0 = config@.monitor_settings;
            let mut parts: Vec<String> = Vec::new();
            let mut i: usize = 0;
            assert(ev.subrange(0, 0) =~= Seq::<EntryView>::empty());
            while i < es.len()
                invariant
                    ev == entries_view(es@),
                    i <= ev.len(),
                    config@.primary_monitor_id == old(config)@.primary_monitor_id,
                    config@.last_quick_switch_state == old(config)@.last_quick_switch_state,
                    config@.monitor_settings == save_entries(s0, ev.subrange(0, i as int)),
                    views(parts@) == ev.subrange(0, i as int).map_values(|e: EntryView| entry_text(e)),
                decreases ev.len() - i,
            {
                let e = &es[i];
                assert(ev.subrange(0, i + 1).drop_last() =~= ev.subrange(0, i as int));
                assert(ev.subrange(0, i + 1).last() == e@);
                save_position(config, &e.monitor_id, &e.display_name, e.position, Some(e.size));
                let ghost before = views(parts@);
                parts.push(entry_text_exec(e));
                assert(views(parts@) =~= before.push(entry_text(e@)));
                assert(ev.subrange(0, i + 1).map_values(|e: EntryView| entry_text(e)) =~= ev.subrange(0, i as int).map_values(
                    |e: EntryView| entry_text(e),
                ).push(entry_text(e@)));
                i += 1;
            }
            assert(ev.subrange(0, ev.len() as int) =~= ev);
            Ok(saved_message(&parts))
        },
        None => {
            let ghost v = snapshot@;
            let mut chosen: Vec<usize> = Vec::new();
            let mut i: usize = 0;
            assert(v.subrange(0, 0) =~= Seq::<MonitorView>::empty());
            while i < snapshot.monitors.len()
                invariant
                    v == snapshot@,
                    i <= v.len(),
                    chosen@.len() == placed(v.subrange(0, i as int)).len(),
                    forall|k: int| 0 <= k < chosen@.len() ==> (#[trigger] chosen@[k]) < v.len() && v[chosen@[k] as int] == placed(v.subrange(0, i as int))[k],
                decreases v.len() - i,
            {
                let ghost w = v.subrange(0, i + 1);
                assert(w.drop_last() =~= v.subrange(0, i as int));
                assert(w.last() == snapshot.monitors@[i as int]@);
                if snapshot.monitors[i].active && snapshot.monitors[i].position.is_some() {
                    chosen.push(i);
                }
                i += 1;
            }
            assert(v.subrange(0, v.len() as int) =~= v);
            let ghost ms = placed(v);
            let n = chosen.len();
            let mut distinct = true;
            let mut a: usize = 0;
            while a < n
                invariant
                    n == chosen@.len(),
                    n == ms.len(),
                    ms == placed(v),
                    v == snapshot@,
                    forall|k: int| 0 <= k < n ==> (#[trigger] chosen@[k]) < v.len() && v[chosen@[k] as int] == ms[k],
                    a <= n,
                    distinct == forall|x: int, y: int| 0 <= x < y < n && x < a ==> (#[trigger] ms[x]).position != (#[trigger] ms[y]).position,
                decreases n - a,
            {
                let mut b: usize = a + 1;
                let ghost before = distinct;
                while b < n
                    invariant
                        n == chosen@.len(),
                        n == ms.len(),
                        forall|k: int| 0 <= k < n ==> (#[trigger] chosen@[k]) < v.len() && v[chosen@[k] as int] == ms[k],
                        v == snapshot@,
                        a < n,
                        a + 1 <= b <= n,
                        distinct == (before && forall|y: int| a < y < b ==> ms[a as int].position != (#[trigger] ms[y]).position),
                    decreases n - b,
                {
                    assert(v[chosen@[a as int] as int] == snapshot.monitors@[chosen@[a as int] as int]@);
                    assert(v[chosen@[b as int] as int] == snapshot.monitors@[chosen@[b as int] as int]@);
                    if snapshot.monitors[chosen[a]].position == snapshot.monitors[chosen[b]].position {
                        distinct = false;
                    }
                    b += 1;
                }
                proof {
                    assert forall|x: int, y: int| 0 <= x < y < n && x < a + 1 implies ((#[trigger] ms[x]).position != (#[trigger] ms[y]).position) == (
                    ms[x].position != ms[y].position) by {}
                }
                a += 1;
            }
            if n < 2 || !distinct {
                return Err(String::from_str("Could not save layout because active monitor positions are incomplete or overlapping."));
            }
            let ghost s0 = config@.monitor_settings;
            let mut parts: Vec<String> = Vec::new();
            let mut k: usize = 0;
            assert(ms.subrange(0, 0) =~= Seq::<MonitorView>::empty());
            proof {
                lemma_placed(v);
            }
            while k < n
                invariant
                    n == chosen@.len(),
                    n == ms.len(),
                    v == snapshot@,
                    forall|q: int| 0 <= q < n ==> (#[trigger] chosen@[q]) < v.len() && v[chosen@[q] as int] == ms[q],
                    forall|q: int| 0 <= q < ms.len() ==> (#[trigger] ms[q]).position is Some,
                    k <= n,
                    config@.primary_monitor_id == old(config)@.primary_monitor_id,
                    config@.last_quick_switch_state == old(config)@.last_quick_switch_state,
                    config@.monitor_settings == save_placed(s0, ms.subrange(0, k as int)),
                    views(parts@) == ms.subrange(0, k as int).map_values(|m: MonitorView| placed_text(m)),
                decreases n - k,
            {
                let m = &snapshot.monitors[chosen[k]];
                assert(m@ == ms[k as int]);
                assert(ms.subrange(0, k + 1).drop_last() =~= ms.subrange(0, k as int));
                assert(ms.subrange(0, k + 1).last() == m@);
                save_position(config, &m.id, &m.display_name, m.position.unwrap(), m.current_mode);
                let ghost before = views(parts@);
                parts.push(placed_text_exec(m));
                assert(views(parts@) =~= before.push(placed_text(m@)));
                assert(ms.subrange(0, k + 1).map_values(|m: MonitorView| placed_text(m)) =~= ms.subrange(0, k as int).map_values(
                    |m: MonitorView| placed_text(m),
                ).push(placed_text(m@)));
                k += 1;
            }
            assert(ms.subrange(0, n as int) =~= ms);
            Ok(saved_message(&parts))
        },
    }
}

/// A monitor's horizontal position (0 without one).
pub open spec fn pos_x(m: MonitorView) -> i32 {
    match m.position {
        Some((x, _)) => x,
        None => 0,
    }
}

/// A monitor's vertical position (0 without one).
pub open spec fn pos_y(m: MonitorView) -> i32 {
    match m.position {
        Some((_, y)) => y,
        None => 0,
    }
}

/// The entry `with_saved` writes.
pub open spec fn saved_entry(s: Seq<MonitorSettingsView>, id: Seq<char>, name: Seq<char>, pos: (i32, i32), size: Option<(u32, u32)>) -> MonitorSettingsView {
    with_saved(s, id, name, pos, size)[upsert_index(s, id)]
}

proof fn lemma_with_saved_written(s: Seq<MonitorSettingsView>, id: Seq<char>, name: Seq<char>, pos: (i32, i32), size: Option<(u32, u32)>)
    ensures
        with_saved(s, id, name, pos, size) == written(s, id, name, saved_entry(s, id, name, pos, size)),
        saved_entry(s, id, name, pos, size).monitor_id == id,
        saved_entry(s, id, name, pos, size).saved_position_x == Some(pos.0),
        saved_entry(s, id, name, pos, size).saved_position_y == Some(pos.1),
        size matches Some((w, h)) ==> saved_entry(s, id, name, pos, size).saved_width == Some(w)
            && saved_entry(s, id, name, pos, size).saved_height == Some(h),
{
    lemma_upsert_index(s, id, name);
}

/// After saving the placed monitors (no two with the same id), each one's
/// settings hold its position, and its mode size when it has a mode; the
/// layout a quick switch restores for it is then exactly where it was.
pub proof fn law_save_then_restore(s: Seq<MonitorSettingsView>, ms: Seq<MonitorView>)
    requires
        forall|i: int, j: int| 0 <= i < j < ms.len() ==> (#[trigger] ms[i]).id != (#[trigger] ms[j]).id,
        forall|k: int| 0 <= k < ms.len() ==> (#[trigger] ms[k]).position is Some,
    ensures
        forall|k: int| 0 <= k < ms.len() ==> {
            let m = #[trigger] ms[k];
            &&& lookup(save_placed(s, ms), m.id) matches Some(x)
            &&& x.saved_position_x == Some(pos_x(m))
            &&& x.saved_position_y == Some(pos_y(m))
            &&& m.current_mode matches Some((w, h)) ==> x.saved_width == Some(w) && x.saved_height == Some(h)
        },
        forall|k: int| 0 <= k < ms.len() && (#[trigger] ms[k]).current_mode is Some ==> layout_for(save_placed(s, ms), ms[k]) == (
        ms[k].output_name, ms[k].position, ms[k].current_mode),
    decreases ms.len(),
{
    if ms.len() > 0 {
        let d = ms.drop_last();
        law_save_then_restore(s, d);
        let m = ms.last();
        let prev = save_placed(s, d);
        let x = saved_entry(prev, m.id, m.display_name, m.position->0, m.current_mode);
        lemma_with_saved_written(prev, m.id, m.display_name, m.position->0, m.current_mode);
        assert forall|k: int| 0 <= k < ms.len() implies {
            let mk = #[trigger] ms[k];
            &&& lookup(save_placed(s, ms), mk.id) matches Some(y)
            &&& y.saved_position_x == Some(pos_x(mk))
            &&& y.saved_position_y == Some(pos_y(mk))
            &&& mk.current_mode matches Some((w, h)) ==> y.saved_width == Some(w) && y.saved_height == Some(h)
        } by {
            law_write_then_lookup(prev, m.id, m.display_name, x, ms[k].id);
            if k < ms.len() - 1 {
                assert(ms[k] == d[k]);
                assert(ms[k].id != m.id);
            }
        }
        assert forall|k: int| 0 <= k < ms.len() && (#[trigger] ms[k]).current_mode is Some implies layout_for(save_placed(s, ms), ms[k]) == (
        ms[k].output_name, ms[k].position, ms[k].current_mode) by {
            law_write_then_lookup(prev, m.id, m.display_name, x, ms[k].id);
            if k < ms.len() - 1 {
                assert(ms[k] == d[k]);
                assert(ms[k].id != m.id);
            }
        }
    }
}

} // verus!
