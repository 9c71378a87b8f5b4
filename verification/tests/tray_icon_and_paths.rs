use monitor_toggle_tray::icon::{monitor_tray_icon, Canvas, Color, Rect};
use monitor_toggle_tray::switcher_icon;
use monitor_toggle_tray::paths::{
    app_icon_install_dir, app_state_dir, autostart_desktop_entry, autostart_file_path, base_dir,
    desktop_icon_value, escape_desktop_value, icon_file_in, join_path, kwin_output_config_path, lock_file_path,
    log_file_path, tray_icon_search_dir, tray_icon_theme_path,
};

#[test]
fn fills_rounded_rectangles_pixel_by_pixel() {
    let red = Color { r: 255, g: 0, b: 0, a: 255 };
    let mut canvas = Canvas::new(4);
    canvas.fill_round_rect(Rect { x: 1, y: 1, width: 2, height: 2 }, 0, red);
    let data = canvas.into_argb();
    assert_eq!(data.len(), 64);
    for k in 0..16 {
        let inside = k == 5 || k == 6 || k == 9 || k == 10;
        let px = &data[k * 4..k * 4 + 4];
        if inside {
            assert_eq!(px, &[255, 255, 0, 0]);
        } else {
            assert_eq!(px, &[0, 0, 0, 0]);
        }
    }
    let mut round = Canvas::new(4);
    round.fill_round_rect(Rect { x: -1, y: 0, width: 10, height: 4 }, 2, red);
    let data = round.into_argb();
    assert_eq!(&data[0..4], &[255, 255, 0, 0]);
    let mut nothing = Canvas::new(2);
    nothing.fill_round_rect(Rect { x: 0, y: 0, width: 0, height: 2 }, 0, red);
    assert!(nothing.into_argb().iter().all(|b| *b == 0));
}

#[test]
fn draws_a_distinct_icon_per_input() {
    let small = monitor_tray_icon(None, 8);
    assert_eq!((small.width, small.height), (16, 16));
    assert_eq!(small.data.len(), 16 * 16 * 4);
    let one = monitor_tray_icon(Some("0x11"), 22);
    let two = monitor_tray_icon(Some("0x12"), 22);
    let other = monitor_tray_icon(Some("0x0f"), 22);
    assert_eq!(one.data.len(), 22 * 22 * 4);
    assert_ne!(one.data, two.data);
    assert_ne!(one.data, other.data);
    assert!(one.data.chunks(4).any(|p| p[0] != 0));
    assert_eq!(&one.data[0..4], &[0, 0, 0, 0]);
}

#[test]
fn builds_xdg_paths() {
    assert_eq!(base_dir(Some("/x"), Some("/home/u"), ".config"), "/x");
    assert_eq!(base_dir(None, Some("/home/u"), ".config"), "/home/u/.config");
    assert_eq!(base_dir(None, None, ".config"), "./.config");
    assert_eq!(join_path("/a/", "b"), "/a/b");
    assert_eq!(join_path("", "b"), "b");
    assert_eq!(kwin_output_config_path(None, Some("/home/u")), "/home/u/.config/kwinoutputconfig.json");
    assert_eq!(app_state_dir(Some("/state"), None), "/state/monitor-toggle-tray");
    assert_eq!(log_file_path(None, Some("/h")), "/h/.local/state/monitor-toggle-tray/debug.log");
    assert_eq!(app_icon_install_dir(None, Some("/h")), "/h/.local/share/icons/hicolor/scalable/apps");
    assert_eq!(icon_file_in("/icons"), "/icons/monitor-toggle-tray.svg");
    assert_eq!(lock_file_path(None), "/tmp/monitor-toggle-tray.lock");
    assert_eq!(lock_file_path(Some("/run/user/1")), "/run/user/1/monitor-toggle-tray.lock");
    assert_eq!(autostart_file_path(None, Some("/h")), "/h/.config/autostart/monitor-toggle-tray.desktop");
}

#[test]
fn picks_icon_locations() {
    assert_eq!(tray_icon_search_dir("/i", true, "/b", true), Some("/i".into()));
    assert_eq!(tray_icon_search_dir("/i", false, "/b", true), Some("/b".into()));
    assert_eq!(tray_icon_search_dir("/i", false, "/b", false), None);
    assert_eq!(tray_icon_theme_path(None), "");
    assert_eq!(desktop_icon_value(true, "/b/x.svg", true), "monitor-toggle-tray");
    assert_eq!(desktop_icon_value(false, "/b/x.svg", true), "/b/x.svg");
    assert_eq!(desktop_icon_value(false, "/b/x.svg", false), "video-display");
}

#[test]
fn writes_an_escaped_desktop_entry() {
    assert_eq!(escape_desktop_value(r#"C:\a "b""#), r#"C:\\a \"b\""#);
    let entry = autostart_desktop_entry("/opt/my \"app\"", "video-display");
    assert!(entry.starts_with("[Desktop Entry]\nType=Application\nVersion=1.0\nName=Monitor Input & Layout Switcher\n"));
    assert!(entry.contains("Exec=\"/opt/my \\\"app\\\"\"\n"));
    assert!(entry.contains("Icon=video-display\n"));
    assert!(entry.ends_with("X-GNOME-Autostart-enabled=true\n"));
}

fn pixel(data: &[u8], size: usize, x: usize, y: usize) -> [u8; 4] {
    let k = (y * size + x) * 4;
    [data[k], data[k + 1], data[k + 2], data[k + 3]]
}

#[test]
fn draws_the_switcher_icon() {
    let icon = switcher_icon::monitor_tray_icon(Some("0x11"), 8);
    assert_eq!((icon.width, icon.height), (16, 16));
    assert_eq!(icon.data.len(), 16 * 16 * 4);
    assert_eq!(pixel(&icon.data, 16, 0, 0), [0, 0, 0, 0]);
    assert_eq!(pixel(&icon.data, 16, 8, 2), [255, 15, 92, 86]);
    assert_eq!(pixel(&icon.data, 16, 6, 7), [255, 10, 33, 38]);
    assert_eq!(pixel(&icon.data, 16, 7, 10), [255, 248, 250, 252]);
    assert_eq!(pixel(&icon.data, 16, 12, 12), [255, 10, 33, 38]);
    assert_eq!(pixel(&icon.data, 16, 13, 13), [255, 94, 234, 212]);

    let other = switcher_icon::monitor_tray_icon(None, 16);
    assert_eq!(pixel(&other.data, 16, 8, 2), [255, 71, 85, 105]);
    assert_eq!(pixel(&other.data, 16, 13, 13), [255, 226, 232, 240]);
    let two = switcher_icon::monitor_tray_icon(Some("0x12"), 16);
    assert_eq!(pixel(&two.data, 16, 8, 2), [255, 148, 76, 22]);
    assert_ne!(two.data, icon.data);
}
