//! Where the app keeps its files, from the XDG variables, and the autostart
//! desktop entry.
use crate::app::APP_ID;
use crate::text::{chars_of, push_str, to_string};
use vstd::prelude::*;

verus! {

/// A base directory: the XDG variable when set, else `<home>/<under_home>`
/// (home `.` when unset).
pub open spec fn base_dir_spec(xdg: Option<Seq<char>>, home: Option<Seq<char>>, under_home: Seq<char>) -> Seq<char> {
    match xdg {
        Some(x) => x,
        None => (match home {
            Some(h) => h,
            None => "."@,
        }) + "/"@ + under_home,
    }
}

pub open spec fn opt_str(o: Option<&str>) -> Option<Seq<char>> {
    match o {
        Some(s) => Some(s@),
        None => None,
    }
}

/// A base directory from an XDG variable and `HOME`.
pub fn base_dir(xdg: Option<&str>, home: Option<&str>, under_home: &str) -> (r: String)
    ensures
        r@ == base_dir_spec(opt_str(xdg), opt_str(home), under_home@),
{
    match xdg {
        Some(x) => String::from_str(x),
        None => {
            let mut v = match home {
                Some(h) => chars_of(h),
                None => chars_of("."),
            };
            push_str(&mut v, "/");
            push_str(&mut v, under_home);
            to_string(v.as_slice())
        },
    }
}

/// A relative name joined to a directory: with a `/` between them unless the
/// directory is empty or already ends with one.
pub open spec fn join_spec(dir: Seq<char>, name: Seq<char>) -> Seq<char> {
    if dir.len() == 0 {
        name
    } else if dir.last() == '/' {
        dir + name
    } else {
        dir + "/"@ + name
    }
}

/// Joins a relative name to a directory.
pub fn join_path(dir: &str, name: &str) -> (r: String)
    ensures
        r@ == join_spec(dir@, name@),
{
    let d = chars_of(dir);
    if d.len() == 0 {
        return String::from_str(name);
    }
    let mut v = d;
    if v[v.len() - 1] != '/' {
        push_str(&mut v, "/");
    }
    push_str(&mut v, name);
    to_string(v.as_slice())
}

/// `$XDG_CONFIG_HOME`, else `~/.config`.
pub fn config_home(xdg_config_home: Option<&str>, home: Option<&str>) -> (r: String)
    ensures
        r@ == base_dir_spec(opt_str(xdg_config_home), opt_str(home), ".config"@),
{
    base_dir(xdg_config_home, home, ".config")
}

/// The settings file: `settings.toml` in the app's directory under the
/// configuration home.
pub fn config_file_path(xdg_config_home: Option<&str>, home: Option<&str>) -> (r: String)
    ensures
        r@ == join_spec(join_spec(base_dir_spec(opt_str(xdg_config_home), opt_str(home), ".config"@), APP_ID@), "settings.toml"@),
{
    let base = config_home(xdg_config_home, home);
    let dir = join_path(base.as_str(), APP_ID);
    join_path(dir.as_str(), "settings.toml")
}

/// KWin's output configuration file.
pub fn kwin_output_config_path(xdg_config_home: Option<&str>, home: Option<&str>) -> (r: String)
    ensures
        r@ == join_spec(base_dir_spec(opt_str(xdg_config_home), opt_str(home), ".config"@), "kwinoutputconfig.json"@),
{
    let base = config_home(xdg_config_home, home);
    join_path(base.as_str(), "kwinoutputconfig.json")
}

/// The app's state directory: `$XDG_STATE_HOME` (else `~/.local/state`) with
/// the app id.
pub fn app_state_dir(xdg_state_home: Option<&str>, home: Option<&str>) -> (r: String)
    ensures
        r@ == join_spec(base_dir_spec(opt_str(xdg_state_home), opt_str(home), ".local/state"@), APP_ID@),
{
    let base = base_dir(xdg_state_home, home, ".local/state");
    join_path(base.as_str(), APP_ID)
}

/// The debug log in the state directory.
pub fn log_file_path(xdg_state_home: Option<&str>, home: Option<&str>) -> (r: String)
    ensures
        r@ == join_spec(join_spec(base_dir_spec(opt_str(xdg_state_home), opt_str(home), ".local/state"@), APP_ID@), "debug.log"@),
{
    let dir = app_state_dir(xdg_state_home, home);
    join_path(dir.as_str(), "debug.log")
}

/// Where the app's icon is installed: `$XDG_DATA_HOME` (else
/// `~/.local/share`) under `icons/hicolor/scalable/apps`.
pub fn app_icon_install_dir(xdg_data_home: Option<&str>, home: Option<&str>) -> (r: String)
    ensures
        r@ == join_spec(base_dir_spec(opt_str(xdg_data_home), opt_str(home), ".local/share"@), "icons/hicolor/scalable/apps"@),
{
    let base = base_dir(xdg_data_home, home, ".local/share");
    join_path(base.as_str(), "icons/hicolor/scalable/apps")
}

/// `<app id>.svg`.
pub open spec fn icon_file_name() -> Seq<char> {
    APP_ID@ + ".svg"@
}

/// The icon file in an icon directory.
pub fn icon_file_in(dir: &str) -> (r: String)
    ensures
        r@ == join_spec(dir@, icon_file_name()),
{
    let mut n = chars_of(APP_ID);
    push_str(&mut n, ".svg");
    let name = to_string(n.as_slice());
    join_path(dir, name.as_str())
}

/// The directory the tray looks for its icon in: the installed one when it
/// holds the icon, else the bundled one when it does.
pub fn tray_icon_search_dir(installed_dir: &str, installed_has_icon: bool, bundled_dir: &str, bundled_has_icon: bool) -> (r: Option<String>)
    ensures
        match r {
            Some(s) => (installed_has_icon && s@ == installed_dir@) || (!installed_has_icon && bundled_has_icon && s@ == bundled_dir@),
            None => !installed_has_icon && !bundled_has_icon,
        },
{
    if installed_has_icon {
        Some(String::from_str(installed_dir))
    } else if bundled_has_icon {
        Some(String::from_str(bundled_dir))
    } else {
        None
    }
}

/// The icon theme path the tray reports: the search directory, or empty.
pub fn tray_icon_theme_path(search_dir: Option<String>) -> (r: String)
    ensures
        r@ == match search_dir {
            Some(d) => d@,
            None => Seq::<char>::empty(),
        },
{
    match search_dir {
        Some(d) => d,
        None => String::new(),
    }
}

/// The icon a desktop entry names: the app id when the icon is installed,
/// else the bundled icon's path when it exists, else a stock icon.
pub fn desktop_icon_value(installed_exists: bool, bundled_icon: &str, bundled_exists: bool) -> (r: String)
    ensures
        r@ == if installed_exists {
            APP_ID@
        } else if bundled_exists {
            bundled_icon@
        } else {
            "video-display"@
        },
{
    if installed_exists {
        String::from_str(APP_ID)
    } else if bundled_exists {
        String::from_str(bundled_icon)
    } else {
        String::from_str("video-display")
    }
}

/// The lock file: in `$XDG_RUNTIME_DIR` (else `/tmp`), `<app id>.lock`.
pub fn lock_file_path(xdg_runtime_dir: Option<&str>) -> (r: String)
    ensures
        r@ == (match xdg_runtime_dir {
            Some(d) => d@,
            None => "/tmp"@,
        }) + "/"@ + APP_ID@ + ".lock"@,
{
    let mut v = match xdg_runtime_dir {
        Some(d) => chars_of(d),
        None => chars_of("/tmp"),
    };
    push_str(&mut v, "/");
    push_str(&mut v, APP_ID);
    push_str(&mut v, ".lock");
    to_string(v.as_slice())
}

/// The autostart directory: `$XDG_CONFIG_HOME` (else `~/.config`) and `/autostart`.
pub fn autostart_dir(xdg_config_home: Option<&str>, home: Option<&str>) -> (r: String)
    ensures
        r@ == base_dir_spec(opt_str(xdg_config_home), opt_str(home), ".config"@) + "/autostart"@,
{
    let mut v = chars_of(base_dir(xdg_config_home, home, ".config").as_str());
    push_str(&mut v, "/autostart");
    to_string(v.as_slice())
}

/// The autostart file: `<autostart dir>/<app id>.desktop`.
pub fn autostart_file_path(xdg_config_home: Option<&str>, home: Option<&str>) -> (r: String)
    ensures
        r@ == base_dir_spec(opt_str(xdg_config_home), opt_str(home), ".config"@) + "/autostart"@ + "/"@ + APP_ID@ + ".desktop"@,
{
    let mut v = chars_of(autostart_dir(xdg_config_home, home).as_str());
    push_str(&mut v, "/");
    push_str(&mut v, APP_ID);
    push_str(&mut v, ".desktop");
    to_string(v.as_slice())
}

/// A value for a desktop entry: each `\` doubled and each `"` preceded by `\`.
pub open spec fn escape_spec(s: Seq<char>) -> Seq<char>
    decreases s.len(),
{
    if s.len() == 0 {
        Seq::empty()
    } else {
        let rest = escape_spec(s.drop_last());
        let c = s.last();
        if c == '\\' {
            rest + seq!['\\', '\\']
        } else if c == '"' {
            rest + seq!['\\', '"']
        } else {
            rest.push(c)
        }
    }
}

/// Escapes a value for a desktop entry.
pub fn escape_desktop_value(s: &str) -> (r: String)
    ensures
        r@ == escape_spec(s@),
{
    let v = chars_of(s);
    let mut out: Vec<char> = Vec::new();
    let mut i: usize = 0;
    assert(v@.subrange(0, 0) =~= Seq::<char>::empty());
    while i < v.len()
        invariant
            v@ == s@,
            i <= v@.len(),
            out@ == escape_spec(v@.subrange(0, i as int)),
        decreases v@.len() - i,
    {
        let c = v[i];
        let ghost w = v@.subrange(0, i + 1);
        assert(w.drop_last() =~= v@.subrange(0, i as int));
        assert(w.last() == c);
        if c == '\\' {
            out.push('\\');
            out.push('\\');
        } else if c == '"' {
            out.push('\\');
            out.push('"');
        } else {
            out.push(c);
        }
        i += 1;
        assert(out@ =~= escape_spec(v@.subrange(0, i as int)));
    }
    assert(v@.subrange(0, v@.len() as int) =~= v@);
    to_string(out.as_slice())
}

/// The autostart desktop entry that starts the program at `exe` with `icon`.
pub open spec fn desktop_entry_spec(exe: Seq<char>, icon: Seq<char>) -> Seq<char> {
    "[Desktop Entry]\nType=Application\nVersion=1.0\nName="@ + crate::app::APP_NAME@
        + "\nComment=Tray app for switching monitor inputs and restoring desktop layouts\nExec=\""@ + escape_spec(exe)
        + "\"\nIcon="@ + escape_spec(icon) + "\nTerminal=false\nCategories=Utility;\nX-GNOME-Autostart-enabled=true\n"@
}

/// The autostart desktop entry for the program at `exe`, showing `icon`.
pub fn autostart_desktop_entry(exe: &str, icon: &str) -> (r: String)
    ensures
        r@ == desktop_entry_spec(exe@, icon@),
{
    let mut v = chars_of("[Desktop Entry]\nType=Application\nVersion=1.0\nName=");
    push_str(&mut v, crate::app::APP_NAME);
    push_str(&mut v, "\nComment=Tray app for switching monitor inputs and restoring desktop layouts\nExec=\"");
    push_str(&mut v, escape_desktop_value(exe).as_str());
    push_str(&mut v, "\"\nIcon=");
    push_str(&mut v, escape_desktop_value(icon).as_str());
    push_str(&mut v, "\nTerminal=false\nCategories=Utility;\nX-GNOME-Autostart-enabled=true\n");
    to_string(v.as_slice())
}

} // verus!
