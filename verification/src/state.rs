//! The state the running app shares between the tray, the settings window
//! and the background work.
use crate::app::{sync_settings, synced_primary, sync_config_with_snapshot};
use crate::cache::{cache_answer, cache_refreshed, MonitorCache, MonitorCacheView};
use crate::config::{ConfigStore, ConfigView};
use crate::monitor::{MonitorSnapshot, MonitorView};
use vstd::prelude::*;

verus! {

/// The settings, the monitor cache, whether a quick switch is running and
/// the last status message.
pub struct SharedState {
    pub config_store: ConfigStore,
    pub monitor_cache: MonitorCache,
    pub switch_in_progress: bool,
    pub last_status: Option<String>,
}

/// The settings brought in step with a snapshot.
pub open spec fn synced(cfg: ConfigView, v: Seq<MonitorView>) -> ConfigView {
    ConfigView {
        primary_monitor_id: synced_primary(v, cfg.primary_monitor_id),
        last_quick_switch_state: cfg.last_quick_switch_state,
        monitor_settings: sync_settings(cfg.monitor_settings, v),
    }
}

/// Takes in a snapshot just taken at `now_ms`: the cache keeps it and the
/// settings are brought in step with it. Hands back a copy.
pub fn refresh_snapshot(shared: &mut SharedState, snapshot: MonitorSnapshot, now_ms: u64) -> (r: MonitorSnapshot)
    ensures
        r@ == snapshot@,
        final(shared).monitor_cache@ == cache_refreshed(snapshot@, now_ms),
        final(shared).config_store.config() == synced(old(shared).config_store.config(), snapshot@),
        final(shared).config_store.path_view() == old(shared).config_store.path_view(),
        final(shared).switch_in_progress == old(shared).switch_in_progress,
        final(shared).last_status == old(shared).last_status,
{
    let mut config = shared.config_store.current();
    sync_config_with_snapshot(&mut config, &snapshot);
    shared.config_store.replace(config);
    shared.monitor_cache.refresh(snapshot, now_ms)
}

/// The snapshot at `now_ms` when the cache has a fresh one; `None` when a new
/// snapshot must be taken (then `refresh_snapshot`).
pub fn current_snapshot(shared: &SharedState, now_ms: u64) -> (r: Option<MonitorSnapshot>)
    ensures
        match r {
            Some(s) => cache_answer(shared.monitor_cache@, now_ms) == Some(Ok::<Seq<MonitorView>, Seq<char>>(s@)),
            None => !(cache_answer(shared.monitor_cache@, now_ms) matches Some(Ok(_))),
        },
{
    match shared.monitor_cache.get(now_ms) {
        Some(Ok(s)) => Some(s),
        _ => None,
    }
}

} // verus!
