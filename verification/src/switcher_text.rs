//! What the standalone input switcher reads from its tools and writes for
//! autostart. Its readers take the first `WxH` token as an output's mode,
//! with or without a position, and keep no position or scale; it reads the
//! current input after `current value = ` or `sl=` only; it logs `ddcutil`
//! only when `setvcp` is the first argument; and its desktop entry has its own
//! name and comment.
use crate::app::{has_arg, has_arg_exec};
use crate::display::{
    has_internal_text, has_internal_text_exec, is_internal_name, is_internal_name_exec, mode_spec,
    output_token_from, outputs_view, parse_output_mode, DisplayOutput, OutputView,
};
use crate::monitor::{value_after_marker, value_after_marker_exec};
use crate::paths::{escape_desktop_value, escape_spec};
use crate::text::{
    chars_of, contains, contains_str, eq_chars_str, lines, lower, lower_chars, push_all, push_str, seqs,
    split_lines, split_whitespace, split_ws, starts_with, starts_with_str, strip_ansi, strip_ansi_chars, to_string,
    trim, trim_chars, trim_end_char, trim_end_char_chars, views,
};
use vstd::prelude::*;

verus! {

/// The switcher's name, shown in its desktop entry and notifications.
pub const SWITCHER_NAME: &'static str = "Monitor Toggle";

// ---------------------------------------------------------------------------
// Output reports
// ---------------------------------------------------------------------------

/// The mode of the first token that is a `WxH` (anything from a `+` on
/// ignored).
pub open spec fn first_mode(parts: Seq<Seq<char>>) -> Option<(u32, u32)>
    decreases parts.len(),
{
    if parts.len() == 0 {
        None
    } else {
        match mode_spec(parts[0]) {
            Some(m) => Some(m),
            None => first_mode(parts.drop_first()),
        }
    }
}

fn first_mode_from(parts: &Vec<Vec<char>>, start: usize) -> (r: Option<(u32, u32)>)
    requires
        start <= parts@.len(),
    ensures
        r == first_mode(seqs(parts@).subrange(start as int, parts@.len() as int)),
{
    let ghost ps = seqs(parts@);
    let mut i = start;
    while i < parts.len()
        invariant
            ps == seqs(parts@),
            start <= i <= parts@.len(),
            first_mode(ps.subrange(start as int, ps.len() as int)) == first_mode(ps.subrange(i as int, ps.len() as int)),
        decreases parts@.len() - i,
    {
        let ghost rest = ps.subrange(i as int, ps.len() as int);
        assert(rest[0] == parts@[i as int]@);
        assert(rest.drop_first() =~= ps.subrange(i + 1, ps.len() as int));
        let token = to_string(parts[i].as_slice());
        let m = parse_output_mode(token.as_str());
        if m.is_some() {
            return m;
        }
        i += 1;
    }
    None
}

/// One `kscreen-doctor -o` line as the switcher reads it, escape sequences
/// removed: `Output: <id> <name> ...`, with the first `WxH` token as its mode.
pub open spec fn kscreen_line(line: Seq<char>) -> Option<OutputView> {
    let t = trim(strip_ansi(line));
    let parts = split_whitespace(t);
    let k = output_token_from(parts, 0);
    if !starts_with(t, "Output"@) || k + 2 >= parts.len() {
        None
    } else {
        let mode = first_mode(parts);
        let name = trim_end_char(parts[k + 2], ':');
        Some(
            OutputView {
                id: trim_end_char(parts[k + 1], ':'),
                name,
                connected: if contains(t, " disconnected"@) {
                    false
                } else if contains(t, " connected"@) || contains(t, " enabled"@) {
                    true
                } else {
                    mode is Some
                },
                internal: is_internal_name(name) || has_internal_text(t),
                current_mode: mode,
                position: None,
                scale: None,
            },
        )
    }
}

/// The outputs of a `kscreen-doctor -o` report as the switcher reads it.
pub open spec fn kscreen_outputs(s: Seq<char>) -> Seq<OutputView> {
    lines(s).filter_map(|l: Seq<char>| kscreen_line(l))
}

fn kscreen_line_exec(line: &[char]) -> (r: Option<DisplayOutput>)
    ensures
        match r {
            Some(o) => kscreen_line(line@) == Some(o@),
            None => kscreen_line(line@) is None,
        },
{
    let cleaned = strip_ansi_chars(line);
    let t = trim_chars(cleaned.as_slice());
    if !starts_with_str(t.as_slice(), "Output") {
        return None;
    }
    let parts = split_ws(t.as_slice());
    let ghost ps = seqs(parts@);
    let mut k: usize = 0;
    while k < parts.len() && !starts_with_str(parts[k].as_slice(), "Output")
        invariant
            ps == seqs(parts@),
            k <= parts@.len(),
            output_token_from(ps, 0) == output_token_from(ps, k as int),
        decreases parts@.len() - k,
    {
        k += 1;
    }
    let k = if k < parts.len() {
        k
    } else {
        0
    };
    if k >= parts.len() || parts.len() - k <= 2 {
        return None;
    }
    let id = trim_end_char_chars(parts[k + 1].as_slice(), ':');
    let name = trim_end_char_chars(parts[k + 2].as_slice(), ':');
    let mode = first_mode_from(&parts, 0);
    assert(ps.subrange(0, ps.len() as int) =~= ps);
    let connected = if contains_str(t.as_slice(), " disconnected") {
        false
    } else if contains_str(t.as_slice(), " connected") || contains_str(t.as_slice(), " enabled") {
        true
    } else {
        mode.is_some()
    };
    let internal = is_internal_name_exec(name.as_slice()) || has_internal_text_exec(t.as_slice());
    Some(
        DisplayOutput {
            id: to_string(id.as_slice()),
            name: to_string(name.as_slice()),
            connected,
            internal,
            current_mode: mode,
            position: None,
            scale: None,
        },
    )
}

/// The outputs of a `kscreen-doctor -o` report, one per `Output` line, each
/// with the first `WxH` token of its line as its mode and no position.
pub fn parse_kscreen_outputs(output: &str) -> (r: Vec<DisplayOutput>)
    ensures
        outputs_view(r@) == kscreen_outputs(output@),
{
    let s = chars_of(output);
    let ls = split_lines(s.as_slice());
    let ghost lv = seqs(ls@);
    let mut out: Vec<DisplayOutput> = Vec::new();
    let mut i: usize = 0;
    assert(lv.subrange(0, 0).filter_map(|l: Seq<char>| kscreen_line(l)) =~= Seq::<OutputView>::empty());
    assert(outputs_view(out@) =~= Seq::<OutputView>::empty());
    while i < ls.len()
        invariant
            lv == seqs(ls@),
            lv == lines(s@),
            s@ == output@,
            i <= ls@.len(),
            outputs_view(out@) == lv.subrange(0, i as int).filter_map(|l: Seq<char>| kscreen_line(l)),
        decreases ls@.len() - i,
    {
        assert(lv.subrange(0, i + 1).drop_last() =~= lv.subrange(0, i as int));
        assert(lv.subrange(0, i + 1).last() == ls@[i as int]@);
        if let Some(o) = kscreen_line_exec(ls[i].as_slice()) {
            let ghost before = out@;
            let ghost ov = o@;
            out.push(o);
            assert(outputs_view(out@) =~= outputs_view(before) + seq![ov]);
        }
        i += 1;
    }
    assert(lv.subrange(0, lv.len() as int) =~= lv);
    out
}

/// The switcher's outputs of a `kscreen-doctor -o` report; an error when the
/// report is not blank but names no output.
pub fn parse_kscreen_listing(output: &str) -> (r: Result<Vec<DisplayOutput>, String>)
    ensures
        match r {
            Ok(v) => outputs_view(v@) == kscreen_outputs(output@) && (kscreen_outputs(output@).len() > 0 || trim(output@).len() == 0),
            Err(e) => kscreen_outputs(output@).len() == 0 && trim(output@).len() > 0 && e@ == "Unable to parse kscreen-doctor output."@,
        },
{
    let outputs = parse_kscreen_outputs(output);
    if outputs.len() == 0 {
        let c = chars_of(output);
        let t = trim_chars(c.as_slice());
        if t.len() > 0 {
            return Err(String::from_str("Unable to parse kscreen-doctor output."));
        }
    }
    Ok(outputs)
}

/// One `xrandr --query` line as the switcher reads it:
/// `<name> connected|disconnected ...`, with the first `WxH` token after those
/// two as its mode.
pub open spec fn xrandr_line(line: Seq<char>) -> Option<OutputView> {
    let t = trim(line);
    let parts = split_whitespace(t);
    if !(contains(t, " connected"@) || contains(t, " disconnected"@)) || parts.len() < 2 {
        None
    } else {
        Some(
            OutputView {
                id: parts[0],
                name: parts[0],
                connected: parts[1] == "connected"@,
                internal: is_internal_name(parts[0]) || has_internal_text(t),
                current_mode: first_mode(parts.subrange(2, parts.len() as int)),
                position: None,
                scale: None,
            },
        )
    }
}

/// The outputs of an `xrandr --query` report as the switcher reads it.
pub open spec fn xrandr_outputs(s: Seq<char>) -> Seq<OutputView> {
    lines(s).filter_map(|l: Seq<char>| xrandr_line(l))
}

fn xrandr_line_exec(line: &[char]) -> (r: Option<DisplayOutput>)
    ensures
        match r {
            Some(o) => xrandr_line(line@) == Some(o@),
            None => xrandr_line(line@) is None,
        },
{
    let t = trim_chars(line);
    if !(contains_str(t.as_slice(), " connected") || contains_str(t.as_slice(), " disconnected")) {
        return None;
    }
    let parts = split_ws(t.as_slice());
    if parts.len() < 2 {
        return None;
    }
    let connected = eq_chars_str(parts[1].as_slice(), "connected");
    let internal = is_internal_name_exec(parts[0].as_slice()) || has_internal_text_exec(t.as_slice());
    let mode = first_mode_from(&parts, 2);
    Some(
        DisplayOutput {
            id: to_string(parts[0].as_slice()),
            name: to_string(parts[0].as_slice()),
            connected,
            internal,
            current_mode: mode,
            position: None,
            scale: None,
        },
    )
}

/// The outputs of an `xrandr --query` report, one per `connected` /
/// `disconnected` line, each with the first `WxH` token after the state as
/// its mode and no position.
pub fn parse_xrandr_outputs(output: &str) -> (r: Vec<DisplayOutput>)
    ensures
        outputs_view(r@) == xrandr_outputs(output@),
{
    let s = chars_of(output);
    let ls = split_lines(s.as_slice());
    let ghost lv = seqs(ls@);
    let mut out: Vec<DisplayOutput> = Vec::new();
    let mut i: usize = 0;
    assert(lv.subrange(0, 0).filter_map(|l: Seq<char>| xrandr_line(l)) =~= Seq::<OutputView>::empty());
    assert(outputs_view(out@) =~= Seq::<OutputView>::empty());
    while i < ls.len()
        invariant
            lv == seqs(ls@),
            lv == lines(s@),
            s@ == output@,
            i <= ls@.len(),
            outputs_view(out@) == lv.subrange(0, i as int).filter_map(|l: Seq<char>| xrandr_line(l)),
        decreases ls@.len() - i,
    {
        assert(lv.subrange(0, i + 1).drop_last() =~= lv.subrange(0, i as int));
        assert(lv.subrange(0, i + 1).last() == ls@[i as int]@);
        if let Some(o) = xrandr_line_exec(ls[i].as_slice()) {
            let ghost before = out@;
            let ghost ov = o@;
            out.push(o);
            assert(outputs_view(out@) =~= outputs_view(before) + seq![ov]);
        }
        i += 1;
    }
    assert(lv.subrange(0, lv.len() as int) =~= lv);
    out
}

// ---------------------------------------------------------------------------
// The current input
// ---------------------------------------------------------------------------

/// The markers after which the switcher looks for the input, in order.
pub open spec fn switcher_markers() -> Seq<Seq<char>> {
    seq!["current value = "@, "sl="@]
}

/// A value in lower case, with `0x` put in front unless it starts so.
pub open spec fn with_hex_prefix(v: Seq<char>) -> Seq<char> {
    let l = lower(v);
    if starts_with(l, "0x"@) {
        l
    } else {
        "0x"@ + l
    }
}

/// The first marker followed by a non-empty run of hex digits, `x` and `X`
/// gives the input, lower-cased and prefixed with `0x` when needed.
pub open spec fn input_scan(s: Seq<char>, ms: Seq<Seq<char>>) -> Option<Seq<char>>
    decreases ms.len(),
{
    if ms.len() == 0 {
        None
    } else {
        match value_after_marker(s, ms[0]) {
            Some(v) => if v.len() > 0 {
                Some(with_hex_prefix(v))
            } else {
                input_scan(s, ms.drop_first())
            },
            None => input_scan(s, ms.drop_first()),
        }
    }
}

fn prefixed(v: &[char]) -> (r: String)
    ensures
        r@ == with_hex_prefix(v@),
{
    let l = lower_chars(v);
    if starts_with_str(l.as_slice(), "0x") {
        to_string(l.as_slice())
    } else {
        let mut p = chars_of("0x");
        push_all(&mut p, l.as_slice());
        to_string(p.as_slice())
    }
}

/// The current input in a `ddcutil getvcp 60` reply, as the switcher reads it.
pub fn parse_current_input(output: &str) -> (r: Option<String>)
    ensures
        match r {
            Some(v) => input_scan(output@, switcher_markers()) == Some(v@),
            None => input_scan(output@, switcher_markers()) is None,
        },
{
    let ghost ms = switcher_markers();
    assert(ms.drop_first() =~= seq!["sl="@]);
    assert(ms.drop_first().drop_first() =~= Seq::<Seq<char>>::empty());
    let s = chars_of(output);
    let first = chars_of("current value = ");
    if let Some(v) = value_after_marker_exec(s.as_slice(), first.as_slice()) {
        if v.len() > 0 {
            return Some(prefixed(v.as_slice()));
        }
    }
    assert(ms[0] == "current value = "@);
    assert(input_scan(output@, ms) == input_scan(output@, ms.drop_first()));
    let ghost rest = ms.drop_first();
    assert(rest[0] == "sl="@);
    assert(input_scan(output@, rest.drop_first()) is None);
    let second = chars_of("sl=");
    if let Some(v) = value_after_marker_exec(s.as_slice(), second.as_slice()) {
        if v.len() > 0 {
            return Some(prefixed(v.as_slice()));
        }
    }
    None
}

// ---------------------------------------------------------------------------
// Logging and autostart
// ---------------------------------------------------------------------------

/// Whether the switcher logs a command's start and success: `ddcutil` only
/// when `setvcp` is its first argument, the listings of `xrandr` and
/// `kscreen-doctor` never, everything else always.
pub open spec fn logs_command(program: Seq<char>, args: Seq<Seq<char>>) -> bool {
    if program == "ddcutil"@ {
        args.len() > 0 && args[0] == "setvcp"@
    } else if program == "xrandr"@ {
        !has_arg(args, "--query"@)
    } else if program == "kscreen-doctor"@ {
        !has_arg(args, "-o"@)
    } else {
        true
    }
}

/// Whether the switcher logs the start and success of a command.
pub fn should_log_command_start_and_success(program: &str, args: &[String]) -> (b: bool)
    ensures
        b == logs_command(program@, views(args@)),
{
    let p = chars_of(program);
    if eq_chars_str(p.as_slice(), "ddcutil") {
        if args.len() == 0 {
            return false;
        }
        let first = chars_of(args[0].as_str());
        eq_chars_str(first.as_slice(), "setvcp")
    } else if eq_chars_str(p.as_slice(), "xrandr") {
        !has_arg_exec(args, "--query")
    } else if eq_chars_str(p.as_slice(), "kscreen-doctor") {
        !has_arg_exec(args, "-o")
    } else {
        true
    }
}

/// The icon the switcher's desktop entry names: the installed icon's path
/// when it exists, else a stock icon.
pub fn desktop_icon_value(installed_icon: &str, installed_exists: bool) -> (r: String)
    ensures
        r@ == if installed_exists {
            installed_icon@
        } else {
            "video-display"@
        },
{
    if installed_exists {
        String::from_str(installed_icon)
    } else {
        String::from_str("video-display")
    }
}

/// The icon theme path the switcher's tray names: the icon install directory
/// when it exists, else nothing.
pub fn tray_icon_theme_path(icon_dir: &str, icon_dir_exists: bool) -> (r: String)
    ensures
        r@ == if icon_dir_exists {
            icon_dir@
        } else {
            Seq::<char>::empty()
        },
{
    if icon_dir_exists {
        String::from_str(icon_dir)
    } else {
        String::new()
    }
}

pub open spec fn switcher_entry_spec(exe: Seq<char>, exec_args: Seq<char>, icon: Seq<char>) -> Seq<char> {
    "[Desktop Entry]\nType=Application\nVersion=1.0\nName="@ + SWITCHER_NAME@
        + "\nComment=Tray app for switching monitor input\nExec=\""@ + escape_spec(exe) + "\""@ + exec_args
        + "\nIcon="@ + escape_spec(icon) + "\nTerminal=false\nCategories=Utility;\nX-GNOME-Autostart-enabled=true\n"@
}

/// The switcher's autostart desktop entry for the program at `exe`, started
/// with `exec_args` after its quoted path (nothing, or the arguments that pick
/// the switcher), showing `icon`.
pub fn autostart_desktop_entry(exe: &str, exec_args: &str, icon: &str) -> (r: String)
    ensures
        r@ == switcher_entry_spec(exe@, exec_args@, icon@),
{
    let mut v = chars_of("[Desktop Entry]\nType=Application\nVersion=1.0\nName=");
    push_str(&mut v, SWITCHER_NAME);
    push_str(&mut v, "\nComment=Tray app for switching monitor input\nExec=\"");
    push_str(&mut v, escape_desktop_value(exe).as_str());
    push_str(&mut v, "\"");
    push_str(&mut v, exec_args);
    push_str(&mut v, "\nIcon=");
    push_str(&mut v, escape_desktop_value(icon).as_str());
    push_str(&mut v, "\nTerminal=false\nCategories=Utility;\nX-GNOME-Autostart-enabled=true\n");
    to_string(v.as_slice())
}

} // verus!
