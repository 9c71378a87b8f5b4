use monitor_toggle_tray::cache::{InputCache, MonitorCache};
use monitor_toggle_tray::config::{AppConfig, ConfigStore};
use monitor_toggle_tray::monitor::{MonitorInfo, MonitorSnapshot};
use monitor_toggle_tray::state::{current_snapshot, refresh_snapshot, SharedState};

fn snapshot() -> MonitorSnapshot {
    MonitorSnapshot {
        monitors: vec![MonitorInfo {
            id: "internal:eDP-1".into(),
            display_name: "Built-in display (eDP-1)".into(),
            output_name: "eDP-1".into(),
            connected: true,
            active: true,
            internal: true,
            position: Some((0, 0)),
            current_mode: Some((1920, 1200)),
            ddc: None,
        }],
    }
}

#[test]
fn monitor_cache_hands_back_a_fresh_snapshot() {
    let mut cache = MonitorCache::new();
    assert!(cache.get(0).is_none());
    assert!(cache.needs_refresh(0));
    let copy = cache.refresh(snapshot(), 1_000);
    assert_eq!(copy.monitors.len(), 1);
    let got = cache.get(3_999).unwrap().unwrap();
    assert_eq!(got.monitors[0].id, "internal:eDP-1");
    assert!(cache.get(4_000).is_none());
    assert_eq!(cache.last_refresh_age(1_500), Some(500));
    assert_eq!(cache.last_refresh_age(500), Some(0));
    cache.invalidate();
    assert!(cache.get(1_001).is_none());
    assert_eq!(cache.last_refresh_age(1_500), None);
    assert_eq!(cache.peek().map(|s| s.monitors.len()), Some(1));
}

#[test]
fn input_cache_keeps_readings_for_two_seconds() {
    let mut cache = InputCache::new();
    assert_eq!(cache.get(0), None);
    cache.store(Some("0x11".into()), 100);
    assert_eq!(cache.get(2_099), Some(Some("0x11".into())));
    assert_eq!(cache.get(2_100), None);
    assert_eq!(cache.refresh(Err("no DDC".into()), 3_000), Err("no DDC".into()));
    assert_eq!(cache.peek(), Some("0x11".into()));
    assert_eq!(cache.refresh(Ok("0x12".into()), 4_000), Ok(Some("0x12".into())));
    assert_eq!(cache.current_value(Err("x".into())), Some("0x12".into()));
    assert_eq!(cache.current_value(Ok(Some("0x0f".into()))), Some("0x0f".into()));
}

#[test]
fn shared_state_refresh_syncs_settings() {
    let mut shared = SharedState {
        config_store: ConfigStore::new_for_tests("/tmp/unused.toml".into()),
        monitor_cache: MonitorCache::new(),
        switch_in_progress: false,
        last_status: None,
    };
    assert!(current_snapshot(&shared, 0).is_none());
    let s = refresh_snapshot(&mut shared, snapshot(), 10);
    assert_eq!(s.monitors.len(), 1);
    assert_eq!(current_snapshot(&shared, 20).map(|s| s.monitors.len()), Some(1));
    let config: AppConfig = shared.config_store.current();
    assert_eq!(config.primary_monitor_id, Some("internal:eDP-1".into()));
    assert_eq!(config.monitor_settings.len(), 1);
    assert_eq!(config.monitor_settings[0].display_name, "Built-in display (eDP-1)");
}

#[test]
fn config_store_reads_back_an_update() {
    let mut store = ConfigStore::new_for_tests("/tmp/cfg.toml".into());
    let n = store.update(|mut c: AppConfig| {
        c.primary_monitor_id = Some("x".into());
        (c, 7)
    });
    assert_eq!(n, 7);
    assert_eq!(store.current().primary_monitor_id, Some("x".into()));
    assert_eq!(store.path(), "/tmp/cfg.toml");
}
