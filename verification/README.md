# monitor_toggle_tray

A Linux tray app for laptops that share external monitors with another
device: one quick switch changes the monitors' inputs over DDC/CI
(`ddcutil`) and turns the controlled external outputs off, or back on at
their saved positions (`xrandr` or `kscreen-doctor`).

## Layout

- `src/` is the verified library. It holds the parsers of the tools' output
  (`ddcutil detect`, `getvcp`, capabilities, `xrandr`, `kscreen-doctor`,
  EDID), monitor discovery and matching, the configuration and its
  synchronisation with what is connected, the quick-switch decisions, the
  layout commands, the caches, the settings window's data, the tray icons and
  the XDG paths. Each public function has a contract over spec functions and
  views; the laws that relate several functions are public proof functions
  named `law_*`.
- `app/` runs the program: processes, files, locks, notifications, the tray
  (ksni) and the settings window (gtk4). It hands the library plain values and
  performs the commands the library returns. `--hdmi-switcher` starts the
  standalone two-input switcher.
- `tests/` exercises the library on concrete values.
