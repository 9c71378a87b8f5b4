//! The settings the app keeps between runs.
use crate::text::{chars_of, eq_chars};
use vstd::prelude::*;

verus! {

/// Which way the last quick switch went.
#[derive(Clone, Copy, Debug, PartialEq, Eq, Structural)]
pub enum QuickSwitchState {
    ControlledMonitorsOn,
    ControlledMonitorsOff,
}

/// All settings.
#[derive(Debug)]
pub struct AppConfig {
    pub primary_monitor_id: Option<String>,
    pub last_quick_switch_state: Option<QuickSwitchState>,
    pub monitor_settings: Vec<MonitorSettings>,
}

/// The settings of one monitor.
#[derive(Debug)]
pub struct MonitorSettings {
    pub monitor_id: String,
    pub display_name: String,
    pub include_in_quick_switch: bool,
    pub laptop_input: Option<String>,
    pub toggle_input: Option<String>,
    pub saved_position_x: Option<i32>,
    pub saved_position_y: Option<i32>,
    pub saved_width: Option<u32>,
    pub saved_height: Option<u32>,
}

/// The settings of one monitor as values.
pub struct MonitorSettingsView {
    pub monitor_id: Seq<char>,
    pub display_name: Seq<char>,
    pub include_in_quick_switch: bool,
    pub laptop_input: Option<Seq<char>>,
    pub toggle_input: Option<Seq<char>>,
    pub saved_position_x: Option<i32>,
    pub saved_position_y: Option<i32>,
    pub saved_width: Option<u32>,
    pub saved_height: Option<u32>,
}

pub open spec fn opt_view(o: Option<String>) -> Option<Seq<char>> {
    match o {
        Some(s) => Some(s@),
        None => None,
    }
}

impl View for MonitorSettings {
    type V = MonitorSettingsView;

    open spec fn view(&self) -> MonitorSettingsView {
        MonitorSettingsView {
            monitor_id: self.monitor_id@,
            display_name: self.display_name@,
            include_in_quick_switch: self.include_in_quick_switch,
            laptop_input: opt_view(self.laptop_input),
            toggle_input: opt_view(self.toggle_input),
            saved_position_x: self.saved_position_x,
            saved_position_y: self.saved_position_y,
            saved_width: self.saved_width,
            saved_height: self.saved_height,
        }
    }
}

pub open spec fn settings_views(v: Seq<MonitorSettings>) -> Seq<MonitorSettingsView> {
    v.map_values(|m: MonitorSettings| m@)
}

/// The settings as values.
pub struct ConfigView {
    pub primary_monitor_id: Option<Seq<char>>,
    pub last_quick_switch_state: Option<QuickSwitchState>,
    pub monitor_settings: Seq<MonitorSettingsView>,
}

impl View for AppConfig {
    type V = ConfigView;

    open spec fn view(&self) -> ConfigView {
        ConfigView {
            primary_monitor_id: opt_view(self.primary_monitor_id),
            last_quick_switch_state: self.last_quick_switch_state,
            monitor_settings: settings_views(self.monitor_settings@),
        }
    }
}

/// Settings for a monitor that has none yet: excluded from quick switch, with
/// no inputs and no saved geometry.
pub open spec fn fresh_settings(monitor_id: Seq<char>, display_name: Seq<char>) -> MonitorSettingsView {
    MonitorSettingsView {
        monitor_id,
        display_name,
        include_in_quick_switch: false,
        laptop_input: None,
        toggle_input: None,
        saved_position_x: None,
        saved_position_y: None,
        saved_width: None,
        saved_height: None,
    }
}

/// Index `i` holds the first settings for `monitor_id`.
pub open spec fn is_first_view(v: Seq<MonitorSettingsView>, monitor_id: Seq<char>, i: int) -> bool {
    &&& 0 <= i < v.len()
    &&& v[i].monitor_id == monitor_id
    &&& forall|j: int| 0 <= j < i ==> v[j].monitor_id != monitor_id
}

/// The index of the first settings for `monitor_id`.
pub open spec fn find_settings(v: Seq<MonitorSettingsView>, monitor_id: Seq<char>) -> Option<int> {
    if exists|i: int| 0 <= i < v.len() && (#[trigger] v[i]).monitor_id == monitor_id {
        Some(choose|i: int| is_first_view(v, monitor_id, i))
    } else {
        None
    }
}

/// The first settings for `monitor_id`.
pub open spec fn lookup(v: Seq<MonitorSettingsView>, monitor_id: Seq<char>) -> Option<MonitorSettingsView> {
    match find_settings(v, monitor_id) {
        Some(i) => Some(v[i]),
        None => None,
    }
}

/// The settings after `settings_mut_or_insert`: the monitor's first entry
/// renamed, or fresh settings appended.
pub open spec fn upsert(v: Seq<MonitorSettingsView>, monitor_id: Seq<char>, display_name: Seq<char>) -> Seq<MonitorSettingsView> {
    match find_settings(v, monitor_id) {
        Some(i) => v.update(i, renamed(v[i], display_name)),
        None => v.push(fresh_settings(monitor_id, display_name)),
    }
}

/// Where `upsert` leaves the monitor's settings.
pub open spec fn upsert_index(v: Seq<MonitorSettingsView>, monitor_id: Seq<char>) -> int {
    match find_settings(v, monitor_id) {
        Some(i) => i,
        None => v.len() as int,
    }
}

pub open spec fn renamed(s: MonitorSettingsView, display_name: Seq<char>) -> MonitorSettingsView {
    MonitorSettingsView {
        monitor_id: s.monitor_id,
        display_name,
        include_in_quick_switch: s.include_in_quick_switch,
        laptop_input: s.laptop_input,
        toggle_input: s.toggle_input,
        saved_position_x: s.saved_position_x,
        saved_position_y: s.saved_position_y,
        saved_width: s.saved_width,
        saved_height: s.saved_height,
    }
}

pub proof fn lemma_find_settings_is(v: Seq<MonitorSettingsView>, monitor_id: Seq<char>, i: int)
    requires
        is_first_view(v, monitor_id, i),
    ensures
        find_settings(v, monitor_id) == Some(i),
{
    assert(v[i].monitor_id == monitor_id);
    let k = choose|k: int| is_first_view(v, monitor_id, k);
    assert(is_first_view(v, monitor_id, k));
    if k < i {
        assert(v[k].monitor_id == monitor_id);
    } else if i < k {
        assert(v[i].monitor_id == monitor_id);
    }
}

/// The settings in memory, and the file they are kept in.
#[derive(Debug)]
pub struct ConfigStore {
    path: String,
    state: AppConfig,
}

fn clone_opt(o: &Option<String>) -> (r: Option<String>)
    ensures
        r == *o,
{
    match o {
        Some(s) => Some(s.clone()),
        None => None,
    }
}

impl MonitorSettings {
    /// A copy of the settings.
    pub fn duplicate(&self) -> (r: MonitorSettings)
        ensures
            r == *self,
    {
        MonitorSettings {
            monitor_id: self.monitor_id.clone(),
            display_name: self.display_name.clone(),
            include_in_quick_switch: self.include_in_quick_switch,
            laptop_input: clone_opt(&self.laptop_input),
            toggle_input: clone_opt(&self.toggle_input),
            saved_position_x: self.saved_position_x,
            saved_position_y: self.saved_position_y,
            saved_width: self.saved_width,
            saved_height: self.saved_height,
        }
    }

}

/// The position of the first settings for `monitor_id`.
pub fn settings_index(v: &Vec<MonitorSettings>, monitor_id: &str) -> (r: Option<usize>)
    ensures
        match r {
            Some(i) => find_settings(settings_views(v@), monitor_id@) == Some(i as int) && i < v@.len(),
            None => find_settings(settings_views(v@), monitor_id@) is None,
        },
{
    let ghost vs = settings_views(v@);
    let id = chars_of(monitor_id);
    let mut i: usize = 0;
    while i < v.len()
        invariant
            vs == settings_views(v@),
            id@ == monitor_id@,
            i <= v@.len(),
            forall|k: int| 0 <= k < i ==> vs[k].monitor_id != monitor_id@,
        decreases v@.len() - i,
    {
        let m = chars_of(v[i].monitor_id.as_str());
        if eq_chars(m.as_slice(), id.as_slice()) {
            proof {
                lemma_find_settings_is(vs, monitor_id@, i as int);
            }
            return Some(i);
        }
        i += 1;
    }
    None
}

impl AppConfig {
    /// No primary monitor, no last switch, no monitor settings.
    pub fn empty() -> (r: AppConfig)
        ensures
            r.primary_monitor_id is None,
            r.last_quick_switch_state is None,
            r.monitor_settings@.len() == 0,
            r@ == AppConfig::empty_view(),
    {
        let r = AppConfig { primary_monitor_id: None, last_quick_switch_state: None, monitor_settings: Vec::new() };
        assert(r@.monitor_settings =~= Seq::<MonitorSettingsView>::empty());
        r
    }

    /// A copy of the settings.
    pub fn duplicate(&self) -> (r: AppConfig)
        ensures
            r@ == self@,
            r.monitor_settings@ == self.monitor_settings@,
    {
        let mut v: Vec<MonitorSettings> = Vec::new();
        let mut i: usize = 0;
        while i < self.monitor_settings.len()
            invariant
                i <= self.monitor_settings@.len(),
                v@ == self.monitor_settings@.subrange(0, i as int),
            decreases self.monitor_settings@.len() - i,
        {
            v.push(self.monitor_settings[i].duplicate());
            i += 1;
            assert(v@ =~= self.monitor_settings@.subrange(0, i as int));
        }
        assert(v@ =~= self.monitor_settings@);
        AppConfig {
            primary_monitor_id: clone_opt(&self.primary_monitor_id),
            last_quick_switch_state: self.last_quick_switch_state,
            monitor_settings: v,
        }
    }

    /// The settings of a monitor, if it has any.
    pub fn settings(&self, monitor_id: &str) -> (r: Option<&MonitorSettings>)
        ensures
            match r {
                Some(s) => exists|i: int| find_settings(self@.monitor_settings, monitor_id@) == Some(i)
                    && *s == self.monitor_settings@[i] && lookup(self@.monitor_settings, monitor_id@) == Some(s@),
                None => lookup(self@.monitor_settings, monitor_id@) is None,
            },
    {
        match settings_index(&self.monitor_settings, monitor_id) {
            Some(i) => Some(&self.monitor_settings[i]),
            None => None,
        }
    }

    /// The settings of a monitor, renamed to `display_name`; fresh settings are
    /// appended when the monitor has none.
    pub fn settings_mut_or_insert(&mut self, monitor_id: &str, display_name: &str) -> (r: &mut MonitorSettings)
        ensures
            final(self).primary_monitor_id == old(self).primary_monitor_id,
            final(self).last_quick_switch_state == old(self).last_quick_switch_state,
            r@ == upsert(old(self)@.monitor_settings, monitor_id@, display_name@)[upsert_index(old(self)@.monitor_settings, monitor_id@)],
            final(self)@.monitor_settings == upsert(old(self)@.monitor_settings, monitor_id@, display_name@).update(
                upsert_index(old(self)@.monitor_settings, monitor_id@),
                final(r)@,
            ),
    {
        let ghost vs = self@.monitor_settings;
        match settings_index(&self.monitor_settings, monitor_id) {
            Some(i) => {
                let ghost before = self.monitor_settings@;
                let s = &mut self.monitor_settings[i];
                s.display_name = String::from_str(display_name);
                s
            },
            None => {
                self.monitor_settings.push(
                    MonitorSettings {
                        monitor_id: String::from_str(monitor_id),
                        display_name: String::from_str(display_name),
                        include_in_quick_switch: false,
                        laptop_input: None,
                        toggle_input: None,
                        saved_position_x: None,
                        saved_position_y: None,
                        saved_width: None,
                        saved_height: None,
                    },
                );
                let n = self.monitor_settings.len();
                &mut self.monitor_settings[n - 1]
            },
        }
    }
}

impl ConfigStore {
    /// The settings held.
    pub closed spec fn config(&self) -> ConfigView {
        self.state@
    }

    /// The file the settings are kept in.
    pub closed spec fn path_view(&self) -> Seq<char> {
        self.path@
    }

    /// A store for `path` holding `config`.
    pub fn with_config(path: String, config: AppConfig) -> (r: ConfigStore)
        ensures
            r.config() == config@,
            r.path_view() == path@,
    {
        ConfigStore { path, state: config }
    }

    /// An empty store for `path`.
    pub fn new_for_tests(path: String) -> (r: ConfigStore)
        ensures
            r.config() == AppConfig::empty_view(),
            r.path_view() == path@,
    {
        ConfigStore { path, state: AppConfig::empty() }
    }

    /// The file the settings are kept in.
    pub fn path(&self) -> (r: &str)
        ensures
            r@ == self.path_view(),
    {
        self.path.as_str()
    }

    /// A copy of the settings held.
    pub fn current(&self) -> (r: AppConfig)
        ensures
            r@ == self.config(),
    {
        self.state.duplicate()
    }

    /// Replaces the settings held.
    pub fn replace(&mut self, config: AppConfig)
        ensures
            final(self).config() == config@,
            final(self).path_view() == old(self).path_view(),
    {
        self.state = config;
    }

    /// Replaces the settings with the ones `update` makes of them, and returns
    /// what it returns beside them.
    pub fn update<T, F: FnOnce(AppConfig) -> (AppConfig, T)>(&mut self, update: F) -> (r: T)
        requires
            forall|c: AppConfig| c@ == old(self).config() ==> call_requires(update, (c,)),
        ensures
            final(self).path_view() == old(self).path_view(),
            exists|c: AppConfig, out: (AppConfig, T)|
                c@ == old(self).config() && call_ensures(update, (c,), out) && final(self).config()
                    == out.0@ && r == out.1,
    {
        let mut taken = AppConfig::empty();
        std::mem::swap(&mut taken, &mut self.state);
        let (next, result) = update(taken);
        self.state = next;
        result
    }
}

impl AppConfig {
    pub open spec fn empty_view() -> ConfigView {
        ConfigView { primary_monitor_id: None, last_quick_switch_state: None, monitor_settings: Seq::empty() }
    }
}

pub proof fn lemma_find_settings_first(v: Seq<MonitorSettingsView>, monitor_id: Seq<char>)
    ensures
        find_settings(v, monitor_id) matches Some(i) ==> is_first_view(v, monitor_id, i),
        find_settings(v, monitor_id) is None ==> forall|j: int| 0 <= j < v.len() ==> (#[trigger] v[j]).monitor_id != monitor_id,
{
    if exists|i: int| 0 <= i < v.len() && (#[trigger] v[i]).monitor_id == monitor_id {
        lemma_least_settings(v, monitor_id, v.len() as int);
    }
}

proof fn lemma_least_settings(v: Seq<MonitorSettingsView>, monitor_id: Seq<char>, n: int)
    requires
        0 <= n <= v.len(),
        exists|i: int| 0 <= i < n && (#[trigger] v[i]).monitor_id == monitor_id,
    ensures
        exists|i: int| is_first_view(v, monitor_id, i),
    decreases n,
{
    if exists|i: int| 0 <= i < n - 1 && (#[trigger] v[i]).monitor_id == monitor_id {
        lemma_least_settings(v, monitor_id, n - 1);
    } else {
        assert(is_first_view(v, monitor_id, n - 1));
    }
}

/// Where `upsert` leaves a monitor's settings: within the list, under its id
/// and the new name.
pub proof fn lemma_upsert_index(v: Seq<MonitorSettingsView>, monitor_id: Seq<char>, display_name: Seq<char>)
    ensures
        0 <= upsert_index(v, monitor_id) < upsert(v, monitor_id, display_name).len(),
        upsert(v, monitor_id, display_name)[upsert_index(v, monitor_id)].monitor_id == monitor_id,
        upsert(v, monitor_id, display_name)[upsert_index(v, monitor_id)].display_name == display_name,
        find_settings(upsert(v, monitor_id, display_name), monitor_id) == Some(upsert_index(v, monitor_id)),
{
    lemma_find_settings_first(v, monitor_id);
    let u = upsert(v, monitor_id, display_name);
    let k = upsert_index(v, monitor_id);
    assert forall|j: int| 0 <= j < k implies u[j].monitor_id != monitor_id by {
        assert(u[j] == v[j]);
    }
    lemma_find_settings_is(u, monitor_id, k);
}

/// The settings after one monitor's entry is written: the entry `upsert`
/// leaves for `monitor_id`, replaced by `x`.
pub open spec fn written(v: Seq<MonitorSettingsView>, monitor_id: Seq<char>, display_name: Seq<char>, x: MonitorSettingsView) -> Seq<MonitorSettingsView> {
    upsert(v, monitor_id, display_name).update(upsert_index(v, monitor_id), x)
}

/// A monitor's settings read back after they were written are what was
/// written; every other monitor's settings read back as before.
pub proof fn law_write_then_lookup(
    v: Seq<MonitorSettingsView>,
    monitor_id: Seq<char>,
    display_name: Seq<char>,
    x: MonitorSettingsView,
    other: Seq<char>,
)
    requires
        x.monitor_id == monitor_id,
    ensures
        lookup(written(v, monitor_id, display_name, x), monitor_id) == Some(x),
        other != monitor_id ==> lookup(written(v, monitor_id, display_name, x), other) == lookup(v, other),
{
    let u = upsert(v, monitor_id, display_name);
    let k = upsert_index(v, monitor_id);
    let w = written(v, monitor_id, display_name, x);
    lemma_upsert_index(v, monitor_id, display_name);
    lemma_find_settings_first(u, monitor_id);
    lemma_find_settings_first(v, monitor_id);
    assert(is_first_view(w, monitor_id, k)) by {
        assert forall|j: int| 0 <= j < k implies w[j].monitor_id != monitor_id by {
            assert(w[j] == u[j]);
        }
    }
    lemma_find_settings_is(w, monitor_id, k);
    if other != monitor_id {
        assert forall|j: int| 0 <= j < w.len() implies ((#[trigger] w[j]).monitor_id == other) == (j < v.len() && v[j].monitor_id == other) by {
            if j == k {
                if k < v.len() {
                    assert(v[k].monitor_id == monitor_id);
                }
            } else if j < v.len() {
                assert(w[j] == u[j]);
                if find_settings(v, monitor_id) matches Some(i) {
                    assert(u[j] == v[j]);
                } else {
                    assert(u[j] == v[j]);
                }
            }
        }
        lemma_find_settings_first(v, other);
        match find_settings(v, other) {
            Some(i) => {
                assert(is_first_view(w, other, i)) by {
                    assert(w[i].monitor_id == other);
                    assert forall|j: int| 0 <= j < i implies w[j].monitor_id != other by {
                        assert(v[j].monitor_id != other);
                    }
                }
                lemma_find_settings_is(w, other, i);
                assert(w[i] == v[i]) by {
                    if i == k {
                        assert(v[k].monitor_id == monitor_id);
                    } else {
                        assert(w[i] == u[i]);
                    }
                }
            },
            None => {
                assert(forall|j: int| 0 <= j < w.len() ==> (#[trigger] w[j]).monitor_id != other);
                assert(!(exists|j: int| 0 <= j < w.len() && (#[trigger] w[j]).monitor_id == other));
            },
        }
    }
}

} // verus!
