//! Display outputs: reading `xrandr` / `kscreen-doctor` reports and planning
//! layout changes.
use crate::text::{
    chars_of, contains, contains_chars, contains_str, copy_range, eq_chars_str, lines, lower,
    lower_chars, parse_i32, parse_i32_chars, parse_u32, parse_u32_chars, seqs, split_lines,
    split_once, split_once_char, split_whitespace, split_ws, starts_with, starts_with_str,
    strip_ansi, strip_ansi_chars, to_string, trim, trim_chars, trim_end_char, trim_end_char_chars,
    find, find_chars, is_first_occurrence, eq_chars, dec_int, push_dec_signed, push_str, push_all, views,
};
use vstd::prelude::*;

verus! {

/// The tool that reads and changes the desktop layout.
#[derive(Clone, Copy, Debug, PartialEq, Eq, Structural)]
pub enum DisplayBackend {
    KscreenDoctor,
    Xrandr,
}

/// One display output as a layout tool reports it. `scale` is the text of the
/// `Scale:` value that `kscreen-doctor` prints, when it prints one.
#[derive(Debug)]
pub struct DisplayOutput {
    pub id: String,
    pub name: String,
    pub connected: bool,
    pub internal: bool,
    pub current_mode: Option<(u32, u32)>,
    pub position: Option<(i32, i32)>,
    pub scale: Option<String>,
}

/// Where an output should go when it is enabled again.
#[derive(Debug)]
pub struct OutputLayout {
    pub name: String,
    pub position: Option<(i32, i32)>,
    pub size: Option<(u32, u32)>,
}

/// A display output as text and numbers.
pub struct OutputView {
    pub id: Seq<char>,
    pub name: Seq<char>,
    pub connected: bool,
    pub internal: bool,
    pub current_mode: Option<(u32, u32)>,
    pub position: Option<(i32, i32)>,
    pub scale: Option<Seq<char>>,
}

impl View for DisplayOutput {
    type V = OutputView;

    open spec fn view(&self) -> OutputView {
        OutputView {
            id: self.id@,
            name: self.name@,
            connected: self.connected,
            internal: self.internal,
            current_mode: self.current_mode,
            position: self.position,
            scale: match self.scale {
                Some(s) => Some(s@),
                None => None,
            },
        }
    }
}

pub open spec fn outputs_view(v: Seq<DisplayOutput>) -> Seq<OutputView> {
    v.map_values(|o: DisplayOutput| o@)
}

impl DisplayOutput {
    /// A copy of the output.
    pub fn duplicate(&self) -> (r: DisplayOutput)
        ensures
            r == *self,
    {
        DisplayOutput {
            id: self.id.clone(),
            name: self.name.clone(),
            connected: self.connected,
            internal: self.internal,
            current_mode: self.current_mode,
            position: self.position,
            scale: match &self.scale {
                Some(s) => Some(s.clone()),
                None => None,
            },
        }
    }
}

// ---------------------------------------------------------------------------
// Connector names
// ---------------------------------------------------------------------------

/// Some marker of the list occurs in `s`.
pub open spec fn contains_any(s: Seq<char>, markers: Seq<Seq<char>>) -> bool {
    exists|i: int| 0 <= i < markers.len() && contains(s, #[trigger] markers[i])
}

pub open spec fn internal_name_markers() -> Seq<Seq<char>> {
    seq!["edp"@, "lvds"@, "dsi"@, "lcd"@, "panel"@, "internal"@, "embedded"@]
}

pub open spec fn internal_text_markers() -> Seq<Seq<char>> {
    seq!["panel"@, "internal"@, "embedded"@, "laptop"@, "built-in"@]
}

pub open spec fn external_name_markers() -> Seq<Seq<char>> {
    seq!["hdmi"@, "displayport"@, "dp-"@, "dvi"@, "vga"@]
}

pub open spec fn is_internal_name(name: Seq<char>) -> bool {
    contains_any(lower(name), internal_name_markers())
}

pub open spec fn has_internal_text(text: Seq<char>) -> bool {
    contains_any(lower(text), internal_text_markers())
}

pub open spec fn is_external_name(name: Seq<char>) -> bool {
    contains_any(lower(name), external_name_markers())
}

fn contains_any_exec(s: &[char], markers: &Vec<Vec<char>>) -> (b: bool)
    ensures
        b == contains_any(s@, seqs(markers@)),
{
    let mut i: usize = 0;
    while i < markers.len()
        invariant
            i <= markers@.len(),
            forall|k: int| 0 <= k < i ==> !contains(s@, #[trigger] seqs(markers@)[k]),
        decreases markers@.len() - i,
    {
        if contains_chars(s, markers[i].as_slice()) {
            assert(contains(s@, seqs(markers@)[i as int]));
            return true;
        }
        i += 1;
    }
    false
}

fn marker_list(kind: u8) -> (r: Vec<Vec<char>>)
    ensures
        kind == 0 ==> seqs(r@) == internal_name_markers(),
        kind == 1 ==> seqs(r@) == internal_text_markers(),
        kind >= 2 ==> seqs(r@) == external_name_markers(),
{
    let mut r: Vec<Vec<char>> = Vec::new();
    if kind == 0 {
        r.push(chars_of("edp"));
        r.push(chars_of("lvds"));
        r.push(chars_of("dsi"));
        r.push(chars_of("lcd"));
        r.push(chars_of("panel"));
        r.push(chars_of("internal"));
        r.push(chars_of("embedded"));
        assert(seqs(r@) =~= internal_name_markers());
    } else if kind == 1 {
        r.push(chars_of("panel"));
        r.push(chars_of("internal"));
        r.push(chars_of("embedded"));
        r.push(chars_of("laptop"));
        r.push(chars_of("built-in"));
        assert(seqs(r@) =~= internal_text_markers());
    } else {
        r.push(chars_of("hdmi"));
        r.push(chars_of("displayport"));
        r.push(chars_of("dp-"));
        r.push(chars_of("dvi"));
        r.push(chars_of("vga"));
        assert(seqs(r@) =~= external_name_markers());
    }
    r
}

pub(crate) fn is_internal_name_exec(name: &[char]) -> (b: bool)
    ensures
        b == is_internal_name(name@),
{
    let l = lower_chars(name);
    let m = marker_list(0);
    contains_any_exec(l.as_slice(), &m)
}

pub(crate) fn has_internal_text_exec(text: &[char]) -> (b: bool)
    ensures
        b == has_internal_text(text@),
{
    let l = lower_chars(text);
    let m = marker_list(1);
    contains_any_exec(l.as_slice(), &m)
}

fn is_external_name_exec(name: &[char]) -> (b: bool)
    ensures
        b == is_external_name(name@),
{
    let l = lower_chars(name);
    let m = marker_list(2);
    contains_any_exec(l.as_slice(), &m)
}

/// Whether a connector name looks like a laptop panel (`eDP`, `LVDS`, `DSI`, ...),
/// ignoring case.
pub fn is_internal_output(name: &str) -> (b: bool)
    ensures
        b == is_internal_name(name@),
{
    let v = chars_of(name);
    is_internal_name_exec(v.as_slice())
}

/// Whether a report line calls the output a panel, internal, embedded,
/// laptop or built-in display, ignoring case.
pub fn has_internal_marker(text: &str) -> (b: bool)
    ensures
        b == has_internal_text(text@),
{
    let v = chars_of(text);
    has_internal_text_exec(v.as_slice())
}

/// Whether a connector name looks like an external connector (HDMI,
/// DisplayPort, DVI, VGA), ignoring case.
pub fn is_external_output(name: &str) -> (b: bool)
    ensures
        b == is_external_name(name@),
{
    let v = chars_of(name);
    is_external_name_exec(v.as_slice())
}

// ---------------------------------------------------------------------------
// Geometry tokens
// ---------------------------------------------------------------------------

/// A `WxH+X+Y` token.
pub open spec fn geometry_spec(token: Seq<char>) -> Option<((u32, u32), (i32, i32))> {
    match split_once(token, '+') {
        Some((g, p)) => match split_once(g, 'x') {
            Some((w, h)) => match split_once(p, '+') {
                Some((x, y)) => match (parse_u32(w), parse_u32(h), parse_i32(x), parse_i32(y)) {
                    (Some(w), Some(h), Some(x), Some(y)) => Some(((w, h), (x, y))),
                    _ => None,
                },
                None => None,
            },
            None => None,
        },
        None => None,
    }
}

/// A `WxH` token, with anything from the first `+` on ignored.
pub open spec fn mode_spec(token: Seq<char>) -> Option<(u32, u32)> {
    let g = match split_once(token, '+') {
        Some((g, _)) => g,
        None => token,
    };
    match split_once(g, 'x') {
        Some((w, h)) => match (parse_u32(w), parse_u32(h)) {
            (Some(w), Some(h)) => Some((w, h)),
            _ => None,
        },
        None => None,
    }
}

/// The geometry of the first token that is one.
pub open spec fn first_geometry(parts: Seq<Seq<char>>) -> Option<((u32, u32), (i32, i32))>
    decreases parts.len(),
{
    if parts.len() == 0 {
        None
    } else {
        match geometry_spec(parts[0]) {
            Some(g) => Some(g),
            None => first_geometry(parts.drop_first()),
        }
    }
}

fn parse_geometry_chars(token: &[char]) -> (r: Option<((u32, u32), (i32, i32))>)
    ensures
        r == geometry_spec(token@),
{
    let (g, p) = match split_once_char(token, '+') {
        Some(v) => v,
        None => {
            return None;
        },
    };
    let (w, h) = match split_once_char(g.as_slice(), 'x') {
        Some(v) => v,
        None => {
            return None;
        },
    };
    let (x, y) = match split_once_char(p.as_slice(), '+') {
        Some(v) => v,
        None => {
            return None;
        },
    };
    let w = parse_u32_chars(w.as_slice());
    let h = parse_u32_chars(h.as_slice());
    let x = parse_i32_chars(x.as_slice());
    let y = parse_i32_chars(y.as_slice());
    match (w, h, x, y) {
        (Some(w), Some(h), Some(x), Some(y)) => Some(((w, h), (x, y))),
        _ => None,
    }
}

/// A `WxH+X+Y` geometry token: the mode and the position.
pub fn parse_geometry(token: &str) -> (r: Option<((u32, u32), (i32, i32))>)
    ensures
        r == geometry_spec(token@),
{
    let v = chars_of(token);
    parse_geometry_chars(v.as_slice())
}

/// The mode of a `WxH` or `WxH+X+Y` token.
pub fn parse_output_mode(token: &str) -> (r: Option<(u32, u32)>)
    ensures
        r == mode_spec(token@),
{
    let v = chars_of(token);
    let g = match split_once_char(v.as_slice(), '+') {
        Some((g, _)) => g,
        None => copy_range(v.as_slice(), 0, v.len()),
    };
    assert(v@.subrange(0, v@.len() as int) =~= v@);
    let (w, h) = match split_once_char(g.as_slice(), 'x') {
        Some(p) => p,
        None => {
            return None;
        },
    };
    match (parse_u32_chars(w.as_slice()), parse_u32_chars(h.as_slice())) {
        (Some(w), Some(h)) => Some((w, h)),
        _ => None,
    }
}

fn first_geometry_exec(parts: &Vec<Vec<char>>) -> (r: Option<((u32, u32), (i32, i32))>)
    ensures
        r == first_geometry(seqs(parts@)),
{
    let ghost ps = seqs(parts@);
    let mut i: usize = 0;
    assert(ps.subrange(0, ps.len() as int) =~= ps);
    while i < parts.len()
        invariant
            ps == seqs(parts@),
            i <= parts@.len(),
            first_geometry(ps) == first_geometry(ps.subrange(i as int, ps.len() as int)),
        decreases parts@.len() - i,
    {
        let ghost rest = ps.subrange(i as int, ps.len() as int);
        assert(rest[0] == parts@[i as int]@);
        assert(rest.drop_first() =~= ps.subrange(i + 1, ps.len() as int));
        let g = parse_geometry_chars(parts[i].as_slice());
        if g.is_some() {
            return g;
        }
        i += 1;
    }
    None
}

// ---------------------------------------------------------------------------
// Session and backends
// ---------------------------------------------------------------------------

/// The layout tools to try for a session type, best first: `xrandr` first on
/// X11, `kscreen-doctor` first otherwise.
pub open spec fn backend_order(session: Seq<char>) -> [DisplayBackend; 2] {
    if session == "x11"@ {
        [DisplayBackend::Xrandr, DisplayBackend::KscreenDoctor]
    } else {
        [DisplayBackend::KscreenDoctor, DisplayBackend::Xrandr]
    }
}

/// The layout tools to try for a session type, best first.
pub fn display_backend_candidates(session: &str) -> (r: [DisplayBackend; 2])
    ensures
        r == backend_order(session@),
{
    let s = chars_of(session);
    if eq_chars_str(s.as_slice(), "x11") {
        [DisplayBackend::Xrandr, DisplayBackend::KscreenDoctor]
    } else {
        [DisplayBackend::KscreenDoctor, DisplayBackend::Xrandr]
    }
}

// ---------------------------------------------------------------------------
// Reading `xrandr --query`
// ---------------------------------------------------------------------------

pub open spec fn mode_of(g: Option<((u32, u32), (i32, i32))>) -> Option<(u32, u32)> {
    match g {
        Some((m, _)) => Some(m),
        None => None,
    }
}

pub open spec fn position_of(g: Option<((u32, u32), (i32, i32))>) -> Option<(i32, i32)> {
    match g {
        Some((_, p)) => Some(p),
        None => None,
    }
}

/// One `xrandr --query` line: `<name> connected|disconnected ... [WxH+X+Y] ...`.
pub open spec fn xrandr_line(line: Seq<char>) -> Option<OutputView> {
    let t = trim(line);
    let parts = split_whitespace(t);
    if !(contains(t, " connected"@) || contains(t, " disconnected"@)) || parts.len() == 0 {
        None
    } else {
        let g = first_geometry(parts);
        Some(
            OutputView {
                id: parts[0],
                name: parts[0],
                connected: parts.len() > 1 && parts[1] == "connected"@,
                internal: is_internal_name(parts[0]) || has_internal_text(t),
                current_mode: mode_of(g),
                position: position_of(g),
                scale: None,
            },
        )
    }
}

/// The outputs of an `xrandr --query` report.
pub open spec fn xrandr_outputs(s: Seq<char>) -> Seq<OutputView> {
    lines(s).filter_map(|l: Seq<char>| xrandr_line(l))
}

fn xrandr_line_exec(line: &[char]) -> (r: Option<DisplayOutput>)
    ensures
        match r {
            Some(o) => xrandr_line(line@) == Some(o@),
            None => xrandr_line(line@) is None,
        },
{
    let t = trim_chars(line);
    if !(contains_str(t.as_slice(), " connected") || contains_str(t.as_slice(), " disconnected")) {
        return None;
    }
    let parts = split_ws(t.as_slice());
    if parts.len() == 0 {
        return None;
    }
    let name = to_string(parts[0].as_slice());
    let connected = parts.len() > 1 && eq_chars_str(parts[1].as_slice(), "connected");
    let g = first_geometry_exec(&parts);
    let internal = is_internal_name_exec(parts[0].as_slice()) || has_internal_text_exec(t.as_slice());
    let o = DisplayOutput {
        id: to_string(parts[0].as_slice()),
        name,
        connected,
        internal,
        current_mode: match g {
            Some((m, _)) => Some(m),
            None => None,
        },
        position: match g {
            Some((_, p)) => Some(p),
            None => None,
        },
        scale: None,
    };
    Some(o)
}

/// The outputs of an `xrandr --query` report, one per `connected` /
/// `disconnected` line.
pub fn parse_xrandr_outputs(output: &str) -> (r: Vec<DisplayOutput>)
    ensures
        outputs_view(r@) == xrandr_outputs(output@),
{
    let s = chars_of(output);
    let ls = split_lines(s.as_slice());
    let ghost lv = seqs(ls@);
    let mut out: Vec<DisplayOutput> = Vec::new();
    let mut i: usize = 0;
    assert(lv.subrange(0, 0).filter_map(|l: Seq<char>| xrandr_line(l)) =~= Seq::<OutputView>::empty());
    assert(outputs_view(out@) =~= Seq::<OutputView>::empty());
    while i < ls.len()
        invariant
            lv == seqs(ls@),
            lv == lines(s@),
            s@ == output@,
            i <= ls@.len(),
            outputs_view(out@) == lv.subrange(0, i as int).filter_map(|l: Seq<char>| xrandr_line(l)),
        decreases ls@.len() - i,
    {
        assert(lv.subrange(0, i + 1).drop_last() =~= lv.subrange(0, i as int));
        assert(lv.subrange(0, i + 1).last() == ls@[i as int]@);
        if let Some(o) = xrandr_line_exec(ls[i].as_slice()) {
            let ghost before = out@;
            let ghost ov = o@;
            out.push(o);
            assert(outputs_view(out@) =~= outputs_view(before) + seq![ov]);
        }
        i += 1;
    }
    assert(lv.subrange(0, lv.len() as int) =~= lv);
    out
}

// ---------------------------------------------------------------------------
// Reading `kscreen-doctor -o`
// ---------------------------------------------------------------------------

/// The index of the first token from `i` on that starts with `Output`, or 0.
pub open spec fn output_token_from(parts: Seq<Seq<char>>, i: int) -> int
    decreases parts.len() - i,
{
    if i < 0 || i >= parts.len() {
        0
    } else if starts_with(parts[i], "Output"@) {
        i
    } else {
        output_token_from(parts, i + 1)
    }
}

/// The first token after `Scale:`.
pub open spec fn scale_token(t: Seq<char>) -> Option<Seq<char>> {
    match find(t, "Scale:"@) {
        Some(i) => {
            let ws = split_whitespace(t.subrange(i + 6, t.len() as int));
            if ws.len() > 0 {
                Some(ws[0])
            } else {
                None
            }
        },
        None => None,
    }
}

/// One `kscreen-doctor -o` line, escape sequences removed:
/// `Output: <id> <name> [connected|disconnected|enabled] ... [WxH+X+Y] ... [Scale: s]`.
pub open spec fn kscreen_line(line: Seq<char>) -> Option<OutputView> {
    let t = trim(strip_ansi(line));
    let parts = split_whitespace(t);
    let k = output_token_from(parts, 0);
    if !starts_with(t, "Output"@) || k + 2 >= parts.len() {
        None
    } else {
        let g = first_geometry(parts);
        let name = trim_end_char(parts[k + 2], ':');
        Some(
            OutputView {
                id: trim_end_char(parts[k + 1], ':'),
                name,
                connected: if contains(t, " disconnected"@) {
                    false
                } else if contains(t, " connected"@) || contains(t, " enabled"@) {
                    true
                } else {
                    g is Some
                },
                internal: is_internal_name(name) || has_internal_text(t),
                current_mode: mode_of(g),
                position: position_of(g),
                scale: scale_token(t),
            },
        )
    }
}

/// The outputs of a `kscreen-doctor -o` report, with modes and positions as
/// printed (before any scaling).
pub open spec fn kscreen_outputs(s: Seq<char>) -> Seq<OutputView> {
    lines(s).filter_map(|l: Seq<char>| kscreen_line(l))
}

fn scale_token_exec(t: &[char]) -> (r: Option<Vec<char>>)
    ensures
        match r {
            Some(v) => scale_token(t@) == Some(v@),
            None => scale_token(t@) is None,
        },
{
    let m = chars_of("Scale:");
    proof {
        reveal_strlit("Scale:");
    }
    let n = t.len();
    match find_chars(t, m.as_slice()) {
        Some(i) => {
            let rest = copy_range(t, i + 6, n);
            let ws = split_ws(rest.as_slice());
            if ws.len() > 0 {
                Some(copy_range(ws[0].as_slice(), 0, ws[0].len()))
            } else {
                None
            }
        },
        None => None,
    }
}

fn kscreen_line_exec(line: &[char]) -> (r: Option<DisplayOutput>)
    ensures
        match r {
            Some(o) => kscreen_line(line@) == Some(o@),
            None => kscreen_line(line@) is None,
        },
{
    let cleaned = strip_ansi_chars(line);
    let t = trim_chars(cleaned.as_slice());
    if !starts_with_str(t.as_slice(), "Output") {
        return None;
    }
    let parts = split_ws(t.as_slice());
    let ghost ps = seqs(parts@);
    let mut k: usize = 0;
    while k < parts.len() && !starts_with_str(parts[k].as_slice(), "Output")
        invariant
            ps == seqs(parts@),
            k <= parts@.len(),
            output_token_from(ps, 0) == output_token_from(ps, k as int),
        decreases parts@.len() - k,
    {
        k += 1;
    }
    let k = if k < parts.len() {
        k
    } else {
        0
    };
    if k >= parts.len() || parts.len() - k <= 2 {
        return None;
    }
    let id = trim_end_char_chars(parts[k + 1].as_slice(), ':');
    let name = trim_end_char_chars(parts[k + 2].as_slice(), ':');
    let g = first_geometry_exec(&parts);
    let connected = if contains_str(t.as_slice(), " disconnected") {
        false
    } else if contains_str(t.as_slice(), " connected") || contains_str(t.as_slice(), " enabled") {
        true
    } else {
        g.is_some()
    };
    let internal = is_internal_name_exec(name.as_slice()) || has_internal_text_exec(t.as_slice());
    let scale = match scale_token_exec(t.as_slice()) {
        Some(v) => Some(to_string(v.as_slice())),
        None => None,
    };
    let o = DisplayOutput {
        id: to_string(id.as_slice()),
        name: to_string(name.as_slice()),
        connected,
        internal,
        current_mode: match g {
            Some((m, _)) => Some(m),
            None => None,
        },
        position: match g {
            Some((_, p)) => Some(p),
            None => None,
        },
        scale,
    };
    Some(o)
}

/// The outputs of a `kscreen-doctor -o` report, one per `Output` line, with
/// modes and positions as printed and the `Scale:` value as text.
pub fn parse_kscreen_outputs(output: &str) -> (r: Vec<DisplayOutput>)
    ensures
        outputs_view(r@) == kscreen_outputs(output@),
{
    let s = chars_of(output);
    let ls = split_lines(s.as_slice());
    let ghost lv = seqs(ls@);
    let mut out: Vec<DisplayOutput> = Vec::new();
    let mut i: usize = 0;
    assert(lv.subrange(0, 0).filter_map(|l: Seq<char>| kscreen_line(l)) =~= Seq::<OutputView>::empty());
    assert(outputs_view(out@) =~= Seq::<OutputView>::empty());
    while i < ls.len()
        invariant
            lv == seqs(ls@),
            lv == lines(s@),
            s@ == output@,
            i <= ls@.len(),
            outputs_view(out@) == lv.subrange(0, i as int).filter_map(|l: Seq<char>| kscreen_line(l)),
        decreases ls@.len() - i,
    {
        assert(lv.subrange(0, i + 1).drop_last() =~= lv.subrange(0, i as int));
        assert(lv.subrange(0, i + 1).last() == ls@[i as int]@);
        if let Some(o) = kscreen_line_exec(ls[i].as_slice()) {
            let ghost before = out@;
            let ghost ov = o@;
            out.push(o);
            assert(outputs_view(out@) =~= outputs_view(before) + seq![ov]);
        }
        i += 1;
    }
    assert(lv.subrange(0, lv.len() as int) =~= lv);
    out
}

// ---------------------------------------------------------------------------
// Combining reports
// ---------------------------------------------------------------------------

/// The last output named `name`.
pub open spec fn last_named(v: Seq<OutputView>, name: Seq<char>) -> Option<OutputView>
    decreases v.len(),
{
    if v.len() == 0 {
        None
    } else if v.last().name == name {
        Some(v.last())
    } else {
        last_named(v.drop_last(), name)
    }
}

/// `o` completed from the fallback report's output of the same name: either
/// report's connected and internal flags count, and a missing mode or
/// position is taken from the fallback.
pub open spec fn merged_entry(o: OutputView, fallback: Seq<OutputView>) -> OutputView {
    match last_named(fallback, o.name) {
        Some(f) => OutputView {
            id: o.id,
            name: o.name,
            connected: o.connected || f.connected,
            internal: o.internal || f.internal,
            current_mode: if o.current_mode is None {
                f.current_mode
            } else {
                o.current_mode
            },
            position: if o.position is None {
                f.position
            } else {
                o.position
            },
            scale: o.scale,
        },
        None => o,
    }
}

pub open spec fn has_named(v: Seq<OutputView>, name: Seq<char>) -> bool {
    exists|i: int| 0 <= i < v.len() && (#[trigger] v[i]).name == name
}

/// The fallback outputs added in order: each one that is connected or
/// internal and whose name is not present yet.
pub open spec fn merge_extra(m: Seq<OutputView>, fallback: Seq<OutputView>) -> Seq<OutputView>
    decreases fallback.len(),
{
    if fallback.len() == 0 {
        m
    } else {
        let acc = merge_extra(m, fallback.drop_last());
        let f = fallback.last();
        if has_named(acc, f.name) || !(f.connected || f.internal) {
            acc
        } else {
            acc.push(f)
        }
    }
}

/// The preferred report completed from the fallback report.
pub open spec fn merge_spec(preferred: Seq<OutputView>, fallback: Seq<OutputView>) -> Seq<OutputView> {
    merge_extra(preferred.map_values(|o: OutputView| merged_entry(o, fallback)), fallback)
}

fn last_named_exec(v: &[DisplayOutput], name: &String) -> (r: Option<usize>)
    ensures
        match r {
            Some(i) => i < v@.len() && last_named(outputs_view(v@), name@) == Some(v@[i as int]@),
            None => last_named(outputs_view(v@), name@) is None,
        },
{
    let ghost vv = outputs_view(v@);
    let mut j: usize = v.len();
    assert(vv.subrange(0, vv.len() as int) =~= vv);
    while j > 0
        invariant
            vv == outputs_view(v@),
            j <= v@.len(),
            last_named(vv, name@) == last_named(vv.subrange(0, j as int), name@),
        decreases j,
    {
        assert(vv.subrange(0, j as int).drop_last() =~= vv.subrange(0, j - 1));
        if v[j - 1].name == *name {
            return Some(j - 1);
        }
        j -= 1;
    }
    None
}

fn has_named_exec(v: &Vec<DisplayOutput>, name: &String) -> (b: bool)
    ensures
        b == has_named(outputs_view(v@), name@),
{
    let mut i: usize = 0;
    while i < v.len()
        invariant
            i <= v@.len(),
            forall|k: int| 0 <= k < i ==> v@[k].name@ != name@,
        decreases v@.len() - i,
    {
        if v[i].name == *name {
            assert(outputs_view(v@)[i as int].name == name@);
            return true;
        }
        i += 1;
    }
    assert forall|k: int| 0 <= k < outputs_view(v@).len() implies (#[trigger] outputs_view(v@)[k]).name != name@ by {
        assert(v@[k].name@ != name@);
    }
    false
}

/// The preferred report completed from the fallback report: flags and missing
/// modes and positions merged by name, then the fallback's connected or
/// internal outputs that the preferred report lacks appended.
pub fn merge_output_data(preferred_outputs: Vec<DisplayOutput>, fallback_outputs: &[DisplayOutput]) -> (r: Vec<DisplayOutput>)
    ensures
        outputs_view(r@) == merge_spec(outputs_view(preferred_outputs@), outputs_view(fallback_outputs@)),
{
    let ghost fb = outputs_view(fallback_outputs@);
    let ghost pv = outputs_view(preferred_outputs@);
    let mut merged: Vec<DisplayOutput> = Vec::new();
    let mut i: usize = 0;
    while i < preferred_outputs.len()
        invariant
            fb == outputs_view(fallback_outputs@),
            pv == outputs_view(preferred_outputs@),
            i <= preferred_outputs@.len(),
            outputs_view(merged@) == pv.map_values(|o: OutputView| merged_entry(o, fb)).subrange(0, i as int),
        decreases preferred_outputs@.len() - i,
    {
        let o = &preferred_outputs[i];
        let entry = match last_named_exec(fallback_outputs, &o.name) {
            Some(k) => {
                let f = &fallback_outputs[k];
                DisplayOutput {
                    id: o.id.clone(),
                    name: o.name.clone(),
                    connected: o.connected || f.connected,
                    internal: o.internal || f.internal,
                    current_mode: if o.current_mode.is_none() {
                        f.current_mode
                    } else {
                        o.current_mode
                    },
                    position: if o.position.is_none() {
                        f.position
                    } else {
                        o.position
                    },
                    scale: match &o.scale {
                        Some(s) => Some(s.clone()),
                        None => None,
                    },
                }
            },
            None => o.duplicate(),
        };
        assert(entry@ == merged_entry(pv[i as int], fb));
        let ghost before = merged@;
        merged.push(entry);
        assert(outputs_view(merged@) =~= outputs_view(before).push(entry@));
        i += 1;
        assert(outputs_view(merged@) =~= pv.map_values(|o: OutputView| merged_entry(o, fb)).subrange(0, i as int));
    }
    let ghost m0 = pv.map_values(|o: OutputView| merged_entry(o, fb));
    assert(m0.subrange(0, m0.len() as int) =~= m0);
    let mut j: usize = 0;
    assert(fb.subrange(0, 0) =~= Seq::<OutputView>::empty());
    while j < fallback_outputs.len()
        invariant
            fb == outputs_view(fallback_outputs@),
            j <= fallback_outputs@.len(),
            outputs_view(merged@) == merge_extra(m0, fb.subrange(0, j as int)),
        decreases fallback_outputs@.len() - j,
    {
        assert(fb.subrange(0, j + 1).drop_last() =~= fb.subrange(0, j as int));
        assert(fb.subrange(0, j + 1).last() == fallback_outputs@[j as int]@);
        let f = &fallback_outputs[j];
        if !has_named_exec(&merged, &f.name) && (f.connected || f.internal) {
            let d = f.duplicate();
            let ghost before = merged@;
            merged.push(d);
            assert(outputs_view(merged@) =~= outputs_view(before).push(d@));
        }
        j += 1;
    }
    assert(fb.subrange(0, fb.len() as int) =~= fb);
    merged
}

/// The index of the first output named `name`.
pub open spec fn is_first_named(v: Seq<OutputView>, name: Seq<char>, i: int) -> bool {
    0 <= i < v.len() && v[i].name == name && forall|j: int| 0 <= j < i ==> v[j].name != name
}

/// The first output named `output_name`, copied.
pub fn find_output(outputs: &[DisplayOutput], output_name: &str) -> (r: Option<DisplayOutput>)
    ensures
        match r {
            Some(o) => exists|i: int| is_first_named(outputs_view(outputs@), output_name@, i) && o == outputs@[i],
            None => !has_named(outputs_view(outputs@), output_name@),
        },
{
    let name = chars_of(output_name);
    let mut i: usize = 0;
    while i < outputs.len()
        invariant
            name@ == output_name@,
            i <= outputs@.len(),
            forall|k: int| 0 <= k < i ==> outputs@[k].name@ != output_name@,
        decreases outputs@.len() - i,
    {
        let n = chars_of(outputs[i].name.as_str());
        if eq_chars(n.as_slice(), name.as_slice()) {
            assert(is_first_named(outputs_view(outputs@), output_name@, i as int));
            return Some(outputs[i].duplicate());
        }
        i += 1;
    }
    assert forall|k: int| 0 <= k < outputs_view(outputs@).len() implies (#[trigger] outputs_view(outputs@)[k]).name != output_name@ by {
        assert(outputs@[k].name@ != output_name@);
    }
    None
}

/// Where the primary display goes when it is the only one left: the origin.
pub fn primary_only_position(primary: &DisplayOutput) -> (r: (i32, i32))
    ensures
        r == (0i32, 0i32),
{
    (0, 0)
}

// ---------------------------------------------------------------------------
// Positions
// ---------------------------------------------------------------------------

pub open spec fn pos_y(o: OutputView) -> i32 {
    match o.position {
        Some((_, y)) => y,
        None => 0,
    }
}

pub open spec fn mode_w(o: OutputView) -> u32 {
    match o.current_mode {
        Some((w, _)) => w,
        None => 0,
    }
}

pub open spec fn has_geometry(o: OutputView) -> bool {
    o.position is Some && o.current_mode is Some
}

/// Output `i` is the first of the topmost outputs that have a position and a mode.
pub open spec fn is_topmost(v: Seq<OutputView>, i: int) -> bool {
    &&& 0 <= i < v.len()
    &&& has_geometry(v[i])
    &&& forall|j: int| 0 <= j < v.len() && has_geometry(#[trigger] v[j]) ==> pos_y(v[i]) <= pos_y(v[j])
    &&& forall|j: int| 0 <= j < i && has_geometry(#[trigger] v[j]) ==> pos_y(v[i]) < pos_y(v[j])
}

pub open spec fn topmost(v: Seq<OutputView>) -> Option<int> {
    if exists|i: int| is_topmost(v, i) {
        Some(choose|i: int| is_topmost(v, i))
    } else {
        None
    }
}

/// The arithmetic of `normalize_stacked_primary_position` stays within `i32`
/// (beyond it the computation overflows).
pub open spec fn stacking_in_range(primary: Seq<char>, pp: Option<(i32, i32)>, v: Seq<OutputView>) -> bool {
    match (pp, topmost(v)) {
        (Some((px, py)), Some(t)) => {
            let top = v[t];
            let (tx, ty) = top.position->0;
            let (tw, th) = top.current_mode->0;
            if top.name == primary || py <= ty {
                true
            } else {
                &&& py - ty <= i32::MAX
                &&& (th as i32) + 400 <= i32::MAX
                &&& i32::MIN <= tx + (tw as i32) <= i32::MAX
                &&& ((py - ty <= (th as i32) + 400 && px < tx + (tw as i32)) ==> i32::MIN <= ty + (th as i32) <= i32::MAX)
            }
        },
        _ => true,
    }
}

/// The primary's position moved up against the topmost output when it sits
/// below it, within its height plus 400 pixels and overlapping it
/// horizontally; otherwise unchanged.
pub open spec fn stacked_position(primary: Seq<char>, pp: Option<(i32, i32)>, v: Seq<OutputView>) -> Option<(i32, i32)> {
    match (pp, topmost(v)) {
        (Some((px, py)), Some(t)) => {
            let top = v[t];
            let (tx, ty) = top.position->0;
            let (tw, th) = top.current_mode->0;
            if top.name == primary || py <= ty {
                pp
            } else if py - ty <= (th as i32) + 400 && px < tx + (tw as i32) {
                Some((px, (ty + (th as i32)) as i32))
            } else {
                pp
            }
        },
        _ => pp,
    }
}

pub proof fn lemma_topmost_is(v: Seq<OutputView>, i: int)
    requires
        is_topmost(v, i),
    ensures
        topmost(v) == Some(i),
{
    let k = choose|k: int| is_topmost(v, k);
    assert(is_topmost(v, k));
    if k < i {
        assert(has_geometry(v[k]));
    } else if i < k {
        assert(has_geometry(v[i]));
    }
}

/// The index of the topmost output with a position and a mode (the first of
/// them on a tie).
fn topmost_index(outputs: &[DisplayOutput]) -> (r: Option<usize>)
    ensures
        match r {
            Some(t) => t < outputs@.len() && topmost(outputs_view(outputs@)) == Some(t as int),
            None => topmost(outputs_view(outputs@)) is None,
        },
{
    let ghost v = outputs_view(outputs@);
    let mut best: Option<usize> = None;
    let mut i: usize = 0;
    while i < outputs.len()
        invariant
            v == outputs_view(outputs@),
            i <= v.len(),
            match best {
                Some(b) => b < i && is_topmost(v.subrange(0, i as int), b as int),
                None => forall|j: int| 0 <= j < i ==> !has_geometry(#[trigger] v[j]),
            },
        decreases v.len() - i,
    {
        let o = &outputs[i];
        if o.position.is_some() && o.current_mode.is_some() {
            let y = o.position.unwrap().1;
            match best {
                Some(b) => {
                    if y < outputs[b].position.unwrap().1 {
                        best = Some(i);
                    }
                },
                None => {
                    best = Some(i);
                },
            }
        }
        proof {
            let w = v.subrange(0, i + 1);
            assert(w[i as int] == v[i as int]);
            assert forall|j: int| 0 <= j < i implies #[trigger] w[j] == v.subrange(0, i as int)[j] by {}
        }
        i += 1;
    }
    assert(v.subrange(0, v.len() as int) =~= v);
    match best {
        Some(b) => {
            proof {
                lemma_topmost_is(v, b as int);
            }
            Some(b)
        },
        None => {
            assert(!(exists|k: int| is_topmost(v, k)));
            None
        },
    }
}

/// Whether `normalize_stacked_primary_position` can compute its result within
/// `i32`.
pub fn stacking_fits(primary_output: &str, primary_position: Option<(i32, i32)>, outputs_to_enable: &[DisplayOutput]) -> (b: bool)
    ensures
        b == stacking_in_range(primary_output@, primary_position, outputs_view(outputs_to_enable@)),
{
    let ghost v = outputs_view(outputs_to_enable@);
    let (px, py) = match primary_position {
        Some(p) => p,
        None => {
            return true;
        },
    };
    let t = match topmost_index(outputs_to_enable) {
        Some(t) => t,
        None => {
            return true;
        },
    };
    let top = &outputs_to_enable[t];
    assert(v[t as int] == top@);
    let (tx, ty) = top.position.unwrap();
    let (tw, th) = top.current_mode.unwrap();
    let pname = chars_of(primary_output);
    let tname = chars_of(top.name.as_str());
    if eq_chars(pname.as_slice(), tname.as_slice()) || py <= ty {
        return true;
    }
    let dy: i64 = py as i64 - ty as i64;
    let th_i: i64 = (th as i32) as i64;
    let tw_i: i64 = (tw as i32) as i64;
    let right: i64 = tx as i64 + tw_i;
    let bottom: i64 = ty as i64 + th_i;
    let max: i64 = i32::MAX as i64;
    let min: i64 = i32::MIN as i64;
    if dy > max || th_i + 400 > max || right < min || right > max {
        return false;
    }
    if dy <= th_i + 400 && (px as i64) < right {
        min <= bottom && bottom <= max
    } else {
        true
    }
}

/// Moves the primary display up against the topmost output it is stacked
/// below, so the two touch.
pub fn normalize_stacked_primary_position(
    primary_output: &str,
    primary_position: Option<(i32, i32)>,
    outputs_to_enable: &[DisplayOutput],
) -> (r: Option<(i32, i32)>)
    requires
        stacking_in_range(primary_output@, primary_position, outputs_view(outputs_to_enable@)),
    ensures
        r == stacked_position(primary_output@, primary_position, outputs_view(outputs_to_enable@)),
{
    let ghost v = outputs_view(outputs_to_enable@);
    let (px, py) = match primary_position {
        Some(p) => p,
        None => {
            return primary_position;
        },
    };
    let t = match topmost_index(outputs_to_enable) {
        Some(t) => t,
        None => {
            return primary_position;
        },
    };
    let top = &outputs_to_enable[t];
    let (tx, ty) = top.position.unwrap();
    let (tw, th) = top.current_mode.unwrap();
    assert(v[t as int].position == Some((tx, ty)));
    assert(v[t as int].current_mode == Some((tw, th)));
    let pname = chars_of(primary_output);
    let tname = chars_of(top.name.as_str());
    if eq_chars(pname.as_slice(), tname.as_slice()) || py <= ty {
        return primary_position;
    }
    let th_i = th as i32;
    let tw_i = tw as i32;
    let touches = py - ty <= th_i + 400;
    let overlaps = px < tx + tw_i;
    if !touches || !overlaps {
        return primary_position;
    }
    Some((px, ty + th_i))
}

/// The right end of the desktop contributed by a connected output with a mode.
pub open spec fn right_end(o: OutputView) -> int {
    (match o.position {
        Some((x, _)) => x as int,
        None => 0,
    }) + (mode_w(o) as i32)
}

pub open spec fn counts_for_edge(o: OutputView) -> bool {
    o.connected && o.current_mode is Some
}

/// The rightmost end over the outputs that count, or 0 when none does.
pub open spec fn right_edge(v: Seq<OutputView>) -> int
    decreases v.len(),
{
    if v.len() == 0 {
        0
    } else {
        let rest = right_edge(v.drop_last());
        let has_rest = exists|j: int| 0 <= j < v.len() - 1 && counts_for_edge(#[trigger] v[j]);
        if !counts_for_edge(v.last()) {
            rest
        } else if !has_rest || right_end(v.last()) >= rest {
            right_end(v.last())
        } else {
            rest
        }
    }
}

/// The right edge is the largest right end among the connected outputs that
/// have a mode: no such output ends to the right of it, one of them ends
/// exactly there, and with none of them it is 0.
pub proof fn law_right_edge_is_max(v: Seq<OutputView>)
    ensures
        forall|i: int| 0 <= i < v.len() && counts_for_edge(#[trigger] v[i]) ==> right_end(v[i]) <= right_edge(v),
        (exists|i: int| 0 <= i < v.len() && counts_for_edge(#[trigger] v[i])) ==> exists|i: int|
            0 <= i < v.len() && counts_for_edge(#[trigger] v[i]) && right_edge(v) == right_end(v[i]),
        (forall|i: int| 0 <= i < v.len() ==> !counts_for_edge(#[trigger] v[i])) ==> right_edge(v) == 0,
        forall|o: OutputView| #[trigger] counts_for_edge(o) == (o.connected && o.current_mode is Some),
        forall|o: OutputView| #[trigger] right_end(o) == (match o.position {
            Some((x, _)) => x as int,
            None => 0,
        }) + (match o.current_mode {
            Some((w, _)) => w as i32 as int,
            None => 0,
        }),
    decreases v.len(),
{
    if v.len() > 0 {
        let d = v.drop_last();
        law_right_edge_is_max(d);
        let n = v.len() - 1;
        assert forall|i: int| 0 <= i < n implies d[i] == v[i] by {}
        let has_rest = exists|j: int| 0 <= j < n && counts_for_edge(#[trigger] v[j]);
        if has_rest {
            let j = choose|j: int| 0 <= j < n && counts_for_edge(#[trigger] v[j]);
            assert(counts_for_edge(d[j]));
        }
        assert forall|i: int| 0 <= i < v.len() && counts_for_edge(#[trigger] v[i]) implies right_end(v[i]) <= right_edge(v) by {
            if i < n {
                assert(d[i] == v[i]);
                assert(counts_for_edge(d[i]));
            }
        }
        if exists|i: int| 0 <= i < v.len() && counts_for_edge(#[trigger] v[i]) {
            if counts_for_edge(v[n]) && (!has_rest || right_end(v.last()) >= right_edge(d)) {
                assert(right_edge(v) == right_end(v[n]));
            } else {
                let i0 = choose|i: int| 0 <= i < v.len() && counts_for_edge(#[trigger] v[i]);
                if !counts_for_edge(v[n]) {
                    assert(i0 < n);
                    assert(counts_for_edge(d[i0]));
                }
                let k = choose|k: int| 0 <= k < d.len() && counts_for_edge(#[trigger] d[k]) && right_edge(d) == right_end(d[k]);
                assert(v[k] == d[k]);
                assert(counts_for_edge(v[k]) && right_edge(v) == right_end(v[k]));
            }
        }
        if forall|i: int| 0 <= i < v.len() ==> !counts_for_edge(#[trigger] v[i]) {
            assert forall|i: int| 0 <= i < d.len() implies !counts_for_edge(#[trigger] d[i]) by {
                assert(d[i] == v[i]);
            }
            assert(!counts_for_edge(v[n]));
        }
    }
}

/// The right edge of the current desktop: the largest `x + width` of the/// The right edge of the current desktop: the largest `x + width` of the
/// connected outputs that have a mode, or 0.
pub fn desktop_right_edge(outputs: &[DisplayOutput]) -> (r: i32)
    requires
        forall|i: int| 0 <= i < outputs@.len() && counts_for_edge(#[trigger] outputs@[i]@) ==> i32::MIN <= right_end(outputs@[i]@) <= i32::MAX,
    ensures
        r == right_edge(outputs_view(outputs@)),
{
    let ghost v = outputs_view(outputs@);
    let mut edge: i32 = 0;
    let mut any = false;
    let mut i: usize = 0;
    assert(v.subrange(0, 0) =~= Seq::<OutputView>::empty());
    while i < outputs.len()
        invariant
            v == outputs_view(outputs@),
            i <= v.len(),
            forall|k: int| 0 <= k < outputs@.len() && counts_for_edge(#[trigger] outputs@[k]@) ==> i32::MIN <= right_end(outputs@[k]@) <= i32::MAX,
            edge == right_edge(v.subrange(0, i as int)),
            any == exists|j: int| 0 <= j < i && counts_for_edge(#[trigger] v[j]),
            !any ==> edge == 0,
        decreases v.len() - i,
    {
        let ghost w = v.subrange(0, i + 1);
        assert(w.drop_last() =~= v.subrange(0, i as int));
        assert forall|j: int| 0 <= j < i implies #[trigger] w[j] == v[j] by {}
        proof {
            if any {
                let j = choose|j: int| 0 <= j < i && counts_for_edge(#[trigger] v[j]);
                assert(counts_for_edge(w[j]));
            }
            if exists|j: int| 0 <= j < w.len() - 1 && counts_for_edge(#[trigger] w[j]) {
                let j = choose|j: int| 0 <= j < w.len() - 1 && counts_for_edge(#[trigger] w[j]);
                assert(counts_for_edge(v[j]));
            }
            assert(w.last() == v[i as int]);
        }
        let o = &outputs[i];
        if o.connected && o.current_mode.is_some() {
            assert(counts_for_edge(outputs@[i as int]@));
            let x: i32 = match o.position {
                Some((x, _)) => x,
                None => 0,
            };
            let width = o.current_mode.unwrap().0 as i32;
            let end = x + width;
            if !any || end >= edge {
                edge = end;
            }
            any = true;
        }
        i += 1;
    }
    assert(v.subrange(0, v.len() as int) =~= v);
    edge
}

// ---------------------------------------------------------------------------
// Choosing outputs
// ---------------------------------------------------------------------------

/// The conditions by which an output is picked.
#[derive(Clone, Copy)]
pub enum OutputFilter {
    InternalConnected,
    Internal,
    ConnectedNotExternal,
    Connected,
    ExternalConnected,
    KnownExternal,
    ActiveExternal,
}

pub open spec fn filter_holds(f: OutputFilter, o: OutputView) -> bool {
    match f {
        OutputFilter::InternalConnected => o.internal && o.connected,
        OutputFilter::Internal => o.internal,
        OutputFilter::ConnectedNotExternal => o.connected && !is_external_name(o.name),
        OutputFilter::Connected => o.connected,
        OutputFilter::ExternalConnected => o.connected && !o.internal && is_external_name(o.name),
        OutputFilter::KnownExternal => !o.internal && is_external_name(o.name),
        OutputFilter::ActiveExternal => o.connected && !o.internal && is_external_name(o.name)
            && o.current_mode is Some,
    }
}

pub open spec fn is_first_where(v: Seq<OutputView>, f: OutputFilter, i: int) -> bool {
    0 <= i < v.len() && filter_holds(f, v[i]) && forall|j: int| 0 <= j < i ==> !filter_holds(f, #[trigger] v[j])
}

/// The index of the first output that `f` picks.
pub open spec fn first_where(v: Seq<OutputView>, f: OutputFilter) -> Option<int> {
    if exists|i: int| 0 <= i < v.len() && filter_holds(f, #[trigger] v[i]) {
        Some(choose|i: int| is_first_where(v, f, i))
    } else {
        None
    }
}

pub proof fn lemma_first_where_is(v: Seq<OutputView>, f: OutputFilter, i: int)
    requires
        is_first_where(v, f, i),
    ensures
        first_where(v, f) == Some(i),
{
    assert(filter_holds(f, v[i]));
    let k = choose|k: int| is_first_where(v, f, k);
    assert(is_first_where(v, f, k));
    if k < i {
        assert(!filter_holds(f, v[k]));
    } else if i < k {
        assert(!filter_holds(f, v[i]));
    }
}

fn filter_holds_exec(f: OutputFilter, o: &DisplayOutput) -> (b: bool)
    ensures
        b == filter_holds(f, o@),
{
    match f {
        OutputFilter::InternalConnected => o.internal && o.connected,
        OutputFilter::Internal => o.internal,
        OutputFilter::ConnectedNotExternal => o.connected && !is_external_name_str(&o.name),
        OutputFilter::Connected => o.connected,
        OutputFilter::ExternalConnected => o.connected && !o.internal && is_external_name_str(&o.name),
        OutputFilter::KnownExternal => !o.internal && is_external_name_str(&o.name),
        OutputFilter::ActiveExternal => o.connected && !o.internal && is_external_name_str(&o.name)
            && o.current_mode.is_some(),
    }
}

fn is_external_name_str(name: &String) -> (b: bool)
    ensures
        b == is_external_name(name@),
{
    let v = chars_of(name.as_str());
    is_external_name_exec(v.as_slice())
}

/// The index of the first output that `f` picks.
pub fn first_where_exec(outputs: &[DisplayOutput], f: OutputFilter) -> (r: Option<usize>)
    ensures
        match r {
            Some(i) => first_where(outputs_view(outputs@), f) == Some(i as int) && i < outputs@.len(),
            None => first_where(outputs_view(outputs@), f) is None,
        },
{
    let ghost v = outputs_view(outputs@);
    let mut i: usize = 0;
    while i < outputs.len()
        invariant
            v == outputs_view(outputs@),
            i <= v.len(),
            forall|j: int| 0 <= j < i ==> !filter_holds(f, #[trigger] v[j]),
        decreases v.len() - i,
    {
        if filter_holds_exec(f, &outputs[i]) {
            proof {
                lemma_first_where_is(v, f, i as int);
            }
            return Some(i);
        }
        i += 1;
    }
    None
}

/// The laptop panel: the first connected internal output, else the first
/// internal one, else the first connected output whose name is not an
/// external connector's.
pub open spec fn internal_choice(v: Seq<OutputView>) -> Option<int> {
    match first_where(v, OutputFilter::InternalConnected) {
        Some(i) => Some(i),
        None => match first_where(v, OutputFilter::Internal) {
            Some(i) => Some(i),
            None => first_where(v, OutputFilter::ConnectedNotExternal),
        },
    }
}

/// The output to lay the desktop out around: the laptop panel, else the first
/// connected output.
pub open spec fn anchor_choice(v: Seq<OutputView>) -> Option<int> {
    match internal_choice(v) {
        Some(i) => Some(i),
        None => first_where(v, OutputFilter::Connected),
    }
}

pub open spec fn picked(outputs: Seq<DisplayOutput>, choice: Option<int>, r: Option<DisplayOutput>) -> bool {
    match choice {
        Some(i) => r == Some(outputs[i]),
        None => r is None,
    }
}

fn copy_at(outputs: &[DisplayOutput], i: Option<usize>) -> (r: Option<DisplayOutput>)
    requires
        i matches Some(k) ==> k < outputs@.len(),
    ensures
        match i {
            Some(k) => r == Some(outputs@[k as int]),
            None => r is None,
        },
{
    match i {
        Some(k) => Some(outputs[k].duplicate()),
        None => None,
    }
}

/// The laptop's own panel among the outputs.
pub fn find_internal_output(outputs: &[DisplayOutput]) -> (r: Option<DisplayOutput>)
    ensures
        picked(outputs@, internal_choice(outputs_view(outputs@)), r),
{
    let i = match first_where_exec(outputs, OutputFilter::InternalConnected) {
        Some(i) => Some(i),
        None => match first_where_exec(outputs, OutputFilter::Internal) {
            Some(i) => Some(i),
            None => first_where_exec(outputs, OutputFilter::ConnectedNotExternal),
        },
    };
    copy_at(outputs, i)
}

/// The output to keep the desktop on: the laptop panel, else any connected one.
pub fn find_anchor_output(outputs: &[DisplayOutput]) -> (r: Option<DisplayOutput>)
    ensures
        picked(outputs@, anchor_choice(outputs_view(outputs@)), r),
{
    let i = match first_where_exec(outputs, OutputFilter::InternalConnected) {
        Some(i) => Some(i),
        None => match first_where_exec(outputs, OutputFilter::Internal) {
            Some(i) => Some(i),
            None => match first_where_exec(outputs, OutputFilter::ConnectedNotExternal) {
                Some(i) => Some(i),
                None => first_where_exec(outputs, OutputFilter::Connected),
            },
        },
    };
    copy_at(outputs, i)
}

/// The first connected, non-internal output with an external connector name.
pub fn find_external_output(outputs: &[DisplayOutput]) -> (r: Option<DisplayOutput>)
    ensures
        picked(outputs@, first_where(outputs_view(outputs@), OutputFilter::ExternalConnected), r),
{
    let i = first_where_exec(outputs, OutputFilter::ExternalConnected);
    copy_at(outputs, i)
}

/// The first non-internal output with an external connector name, connected or not.
pub fn find_known_external_output(outputs: &[DisplayOutput]) -> (r: Option<DisplayOutput>)
    ensures
        picked(outputs@, first_where(outputs_view(outputs@), OutputFilter::KnownExternal), r),
{
    let i = first_where_exec(outputs, OutputFilter::KnownExternal);
    copy_at(outputs, i)
}

/// Whether some connected external output is active (has a mode).
pub fn has_connected_external_output(outputs: &[DisplayOutput]) -> (b: bool)
    ensures
        b == exists|i: int| 0 <= i < outputs@.len() && filter_holds(OutputFilter::ActiveExternal, #[trigger] outputs_view(outputs@)[i]),
{
    let r = first_where_exec(outputs, OutputFilter::ActiveExternal);
    proof {
        if let Some(i) = r {
            let v = outputs_view(outputs@);
            assert(is_first_where(v, OutputFilter::ActiveExternal, i as int)) by {
                lemma_first_where_is_first(v, OutputFilter::ActiveExternal);
            }
        }
    }
    r.is_some()
}

pub proof fn lemma_first_where_is_first(v: Seq<OutputView>, f: OutputFilter)
    ensures
        first_where(v, f) matches Some(i) ==> is_first_where(v, f, i),
{
    if exists|i: int| 0 <= i < v.len() && filter_holds(f, #[trigger] v[i]) {
        lemma_least_where(v, f, v.len() as int);
    }
}

proof fn lemma_least_where(v: Seq<OutputView>, f: OutputFilter, n: int)
    requires
        0 <= n <= v.len(),
        exists|i: int| 0 <= i < n && filter_holds(f, #[trigger] v[i]),
    ensures
        exists|i: int| is_first_where(v, f, i),
    decreases n,
{
    if exists|i: int| 0 <= i < n - 1 && filter_holds(f, #[trigger] v[i]) {
        lemma_least_where(v, f, n - 1);
    } else {
        assert(is_first_where(v, f, n - 1));
    }
}

// ---------------------------------------------------------------------------
// Layout commands
// ---------------------------------------------------------------------------

/// A program to run and its arguments.
#[derive(Debug)]
pub struct CommandLine {
    pub program: String,
    pub args: Vec<String>,
}

pub open spec fn program_of(backend: DisplayBackend) -> Seq<char> {
    match backend {
        DisplayBackend::KscreenDoctor => "kscreen-doctor"@,
        DisplayBackend::Xrandr => "xrandr"@,
    }
}

/// `output.<id><suffix>`, a `kscreen-doctor` setting.
pub open spec fn ks_arg(id: Seq<char>, suffix: Seq<char>) -> Seq<char> {
    "output."@ + id + suffix
}

/// `output.<id>.position.<x>,<y>`.
pub open spec fn ks_position(id: Seq<char>, x: int, y: int) -> Seq<char> {
    "output."@ + id + ".position."@ + dec_int(x) + ","@ + dec_int(y)
}

/// `<x>x<y>`.
pub open spec fn xy_text(x: int, y: int) -> Seq<char> {
    dec_int(x) + "x"@ + dec_int(y)
}

/// The index of the first output named `name`.
pub open spec fn first_named(v: Seq<OutputView>, name: Seq<char>) -> int {
    choose|i: int| is_first_named(v, name, i)
}

/// The `kscreen-doctor` settings that turn off the listed outputs other than the primary.
pub open spec fn ks_off(v: Seq<OutputView>, names: Seq<Seq<char>>, primary: Seq<char>) -> Seq<Seq<char>>
    decreases v.len(),
{
    if v.len() == 0 {
        Seq::empty()
    } else {
        let rest = ks_off(v.drop_last(), names, primary);
        let o = v.last();
        if names.contains(o.name) && o.name != primary {
            rest.push(ks_arg(o.id, ".disable"@))
        } else {
            rest
        }
    }
}

/// The `xrandr` arguments that turn off the listed outputs other than the primary.
pub open spec fn xr_off(v: Seq<OutputView>, names: Seq<Seq<char>>, primary: Seq<char>) -> Seq<Seq<char>>
    decreases v.len(),
{
    if v.len() == 0 {
        Seq::empty()
    } else {
        let rest = xr_off(v.drop_last(), names, primary);
        let o = v.last();
        if names.contains(o.name) && o.name != primary {
            rest + seq!["--output"@, o.name, "--off"@]
        } else {
            rest
        }
    }
}

/// An output the disable step turns off: it is listed, and it is not the
/// primary display.
pub open spec fn turned_off(names: Seq<Seq<char>>, primary: Seq<char>) -> spec_fn(OutputView) -> bool {
    |o: OutputView| names.contains(o.name) && o.name != primary
}

/// The disable step turns off exactly the outputs that are listed and are not
/// the primary display, in their order: `kscreen-doctor` gets one
/// `output.<id>.disable` for each, and nothing else; `xrandr` gets
/// `--output <name> --off` for each, and nothing else.
pub proof fn law_disable_targets(v: Seq<OutputView>, names: Seq<Seq<char>>, primary: Seq<char>)
    ensures
        ks_off(v, names, primary) == v.filter(turned_off(names, primary)).map_values(|o: OutputView| ks_arg(o.id, ".disable"@)),
        xr_off(v, names, primary).len() == 3 * v.filter(turned_off(names, primary)).len(),
        forall|k: int| 0 <= k < v.filter(turned_off(names, primary)).len() ==> {
            let a = xr_off(v, names, primary);
            &&& a[3 * k] == "--output"@
            &&& a[3 * k + 1] == (#[trigger] v.filter(turned_off(names, primary))[k]).name
            &&& a[3 * k + 2] == "--off"@
        },
        forall|i: int| 0 <= i < v.len() && names.contains(v[i].name) && v[i].name != primary ==> ks_off(v, names, primary).contains(
            ks_arg(#[trigger] v[i].id, ".disable"@),
        ),
        forall|id: Seq<char>| #[trigger] ks_arg(id, ".disable"@) == "output."@ + id + ".disable"@,
    decreases v.len(),
{
    reveal(Seq::filter);
    let f = turned_off(names, primary);
    if v.len() > 0 {
        let d = v.drop_last();
        law_disable_targets(d, names, primary);
        let td = d.filter(f);
        let t = v.filter(f);
        let o = v.last();
        if f(o) {
            assert(t == td.push(o));
            assert(ks_off(v, names, primary) =~= t.map_values(|o: OutputView| ks_arg(o.id, ".disable"@)));
            let a = xr_off(v, names, primary);
            let ad = xr_off(d, names, primary);
            assert forall|k: int| 0 <= k < t.len() implies {
                &&& a[3 * k] == "--output"@
                &&& a[3 * k + 1] == (#[trigger] t[k]).name
                &&& a[3 * k + 2] == "--off"@
            } by {
                if k < td.len() {
                    assert(t[k] == td[k]);
                    assert(a[3 * k] == ad[3 * k]);
                    assert(a[3 * k + 1] == ad[3 * k + 1]);
                    assert(a[3 * k + 2] == ad[3 * k + 2]);
                }
            }
        } else {
            assert(t == td);
            assert(ks_off(v, names, primary) =~= t.map_values(|o: OutputView| ks_arg(o.id, ".disable"@)));
        }
        assert forall|i: int| 0 <= i < v.len() && names.contains(v[i].name) && v[i].name != primary implies ks_off(
            v,
            names,
            primary,
        ).contains(ks_arg(#[trigger] v[i].id, ".disable"@)) by {
            let ks = ks_off(v, names, primary);
            if i < v.len() - 1 {
                assert(d[i] == v[i]);
                let ksd = ks_off(d, names, primary);
                assert(ksd.contains(ks_arg(d[i].id, ".disable"@)));
                let j = choose|j: int| 0 <= j < ksd.len() && ksd[j] == ks_arg(d[i].id, ".disable"@);
                assert(ks[j] == ksd[j]);
            } else {
                assert(ks[ks.len() - 1] == ks_arg(v[i].id, ".disable"@));
            }
        }
    } else {
        assert(v.filter(f) =~= Seq::<OutputView>::empty());
        assert(ks_off(v, names, primary) =~= v.filter(f).map_values(|o: OutputView| ks_arg(o.id, ".disable"@)));
    }
}

/// The command that keeps only the primary display on, at the origin, and turns
/// the listed outputs off.
pub open spec fn disable_args(backend: DisplayBackend, p: OutputView, v: Seq<OutputView>, names: Seq<Seq<char>>) -> Seq<Seq<char>> {
    match backend {
        DisplayBackend::KscreenDoctor => seq![
            ks_arg(p.id, ".enable"@),
            ks_arg(p.id, ".primary"@),
            ks_position(p.id, 0, 0),
        ] + ks_off(v, names, p.name),
        DisplayBackend::Xrandr => seq![
            "--output"@,
            p.name,
            "--auto"@,
            "--primary"@,
            "--pos"@,
            xy_text(0, 0),
        ] + xr_off(v, names, p.name),
    }
}

/// `Primary display <name> is no longer available.`
pub open spec fn primary_gone(name: Seq<char>) -> Seq<char> {
    "Primary display "@ + name + " is no longer available."@
}

fn ks_arg_exec(id: &String, suffix: &str) -> (r: String)
    ensures
        r@ == ks_arg(id@, suffix@),
{
    let mut v = chars_of("output.");
    push_str(&mut v, id.as_str());
    push_str(&mut v, suffix);
    to_string(v.as_slice())
}

fn ks_position_exec(id: &String, x: i32, y: i32) -> (r: String)
    ensures
        r@ == ks_position(id@, x as int, y as int),
{
    let mut v = chars_of("output.");
    push_str(&mut v, id.as_str());
    push_str(&mut v, ".position.");
    push_dec_signed(&mut v, x as i64);
    push_str(&mut v, ",");
    push_dec_signed(&mut v, y as i64);
    assert(v@ =~= ks_position(id@, x as int, y as int));
    to_string(v.as_slice())
}

fn xy_exec(x: i32, y: i32) -> (r: String)
    ensures
        r@ == xy_text(x as int, y as int),
{
    let mut v: Vec<char> = Vec::new();
    push_dec_signed(&mut v, x as i64);
    push_str(&mut v, "x");
    push_dec_signed(&mut v, y as i64);
    assert(v@ =~= xy_text(x as int, y as int));
    to_string(v.as_slice())
}

pub(crate) fn lit(s: &str) -> (r: String)
    ensures
        r@ == s@,
{
    String::from_str(s)
}

fn names_contain(names: &[String], name: &String) -> (b: bool)
    ensures
        b == views(names@).contains(name@),
{
    let mut i: usize = 0;
    while i < names.len()
        invariant
            i <= names@.len(),
            forall|k: int| 0 <= k < i ==> names@[k]@ != name@,
        decreases names@.len() - i,
    {
        if names[i] == *name {
            assert(views(names@)[i as int] == name@);
            return true;
        }
        i += 1;
    }
    assert forall|k: int| 0 <= k < views(names@).len() implies views(names@)[k] != name@ by {
        assert(names@[k]@ != name@);
    }
    false
}

/// The command that turns the listed outputs off and keeps the primary display
/// on at the origin; an error when the primary display is not among the outputs.
pub fn disable_outputs(
    backend: DisplayBackend,
    outputs: &[DisplayOutput],
    primary_output: &str,
    outputs_to_disable: &[String],
) -> (r: Result<CommandLine, String>)
    ensures
        match r {
            Ok(c) => {
                let v = outputs_view(outputs@);
                &&& has_named(v, primary_output@)
                &&& c.program@ == program_of(backend)
                &&& views(c.args@) == disable_args(backend, v[first_named(v, primary_output@)], v, views(outputs_to_disable@))
            },
            Err(e) => !has_named(outputs_view(outputs@), primary_output@) && e@ == primary_gone(primary_output@),
        },
{
    let ghost v = outputs_view(outputs@);
    let ghost names = views(outputs_to_disable@);
    let primary = match find_output(outputs, primary_output) {
        Some(p) => p,
        None => {
            let mut e = chars_of("Primary display ");
            push_str(&mut e, primary_output);
            push_str(&mut e, " is no longer available.");
            return Err(to_string(e.as_slice()));
        },
    };
    proof {
        let i = choose|i: int| is_first_named(v, primary_output@, i) && primary == outputs@[i];
        let j = first_named(v, primary_output@);
        assert(is_first_named(v, primary_output@, j));
        if i < j {
            assert(v[i].name == primary_output@);
        } else if j < i {
            assert(v[j].name == primary_output@);
        }
        assert(has_named(v, primary_output@));
    }
    let pos = primary_only_position(&primary);
    let mut args: Vec<String> = Vec::new();
    let ghost head: Seq<Seq<char>>;
    match backend {
        DisplayBackend::KscreenDoctor => {
            args.push(ks_arg_exec(&primary.id, ".enable"));
            args.push(ks_arg_exec(&primary.id, ".primary"));
            args.push(ks_position_exec(&primary.id, pos.0, pos.1));
            proof {
                head = seq![ks_arg(primary.id@, ".enable"@), ks_arg(primary.id@, ".primary"@), ks_position(primary.id@, 0, 0)];
            }
        },
        DisplayBackend::Xrandr => {
            args.push(lit("--output"));
            args.push(primary.name.clone());
            args.push(lit("--auto"));
            args.push(lit("--primary"));
            args.push(lit("--pos"));
            args.push(xy_exec(pos.0, pos.1));
            proof {
                head = seq!["--output"@, primary.name@, "--auto"@, "--primary"@, "--pos"@, xy_text(0, 0)];
            }
        },
    }
    assert(views(args@) =~= head);
    let mut i: usize = 0;
    assert(v.subrange(0, 0) =~= Seq::<OutputView>::empty());
    assert(head + Seq::<Seq<char>>::empty() =~= head);
    while i < outputs.len()
        invariant
            v == outputs_view(outputs@),
            names == views(outputs_to_disable@),
            i <= v.len(),
            views(args@) == head + (match backend {
                DisplayBackend::KscreenDoctor => ks_off(v.subrange(0, i as int), names, primary.name@),
                DisplayBackend::Xrandr => xr_off(v.subrange(0, i as int), names, primary.name@),
            }),
        decreases v.len() - i,
    {
        let ghost w = v.subrange(0, i + 1);
        assert(w.drop_last() =~= v.subrange(0, i as int));
        assert(w.last() == outputs@[i as int]@);
        let o = &outputs[i];
        if names_contain(outputs_to_disable, &o.name) && !(o.name == primary.name) {
            let ghost before = views(args@);
            match backend {
                DisplayBackend::KscreenDoctor => {
                    args.push(ks_arg_exec(&o.id, ".disable"));
                    assert(views(args@) =~= before.push(ks_arg(o.id@, ".disable"@)));
                },
                DisplayBackend::Xrandr => {
                    args.push(lit("--output"));
                    args.push(o.name.clone());
                    args.push(lit("--off"));
                    assert(views(args@) =~= before + seq!["--output"@, o.name@, "--off"@]);
                },
            }
        }
        i += 1;
    }
    assert(v.subrange(0, v.len() as int) =~= v);
    let program = match backend {
        DisplayBackend::KscreenDoctor => lit("kscreen-doctor"),
        DisplayBackend::Xrandr => lit("xrandr"),
    };
    proof {
        let j = first_named(v, primary_output@);
        let i2 = choose|i: int| is_first_named(v, primary_output@, i) && primary == outputs@[i];
        assert(is_first_named(v, primary_output@, j));
        if i2 < j {
            assert(v[i2].name == primary_output@);
        } else if j < i2 {
            assert(v[j].name == primary_output@);
        }
        assert(v[j] == primary@);
    }
    Ok(CommandLine { program, args })
}

// ---------------------------------------------------------------------------
// Choosing what the layout tools reported
// ---------------------------------------------------------------------------

pub open spec fn result_view(r: Result<Vec<DisplayOutput>, String>) -> Result<Seq<OutputView>, Seq<char>> {
    match r {
        Ok(v) => Ok(outputs_view(v@)),
        Err(e) => Err(e@),
    }
}

pub open spec fn results_view(rs: Seq<(DisplayBackend, Result<Vec<DisplayOutput>, String>)>) -> Seq<(DisplayBackend, Result<Seq<OutputView>, Seq<char>>)> {
    rs.map_values(|p: (DisplayBackend, Result<Vec<DisplayOutput>, String>)| (p.0, result_view(p.1)))
}

/// The backends that listed some output, with what they listed, in order.
pub open spec fn listed(rs: Seq<(DisplayBackend, Result<Seq<OutputView>, Seq<char>>)>) -> Seq<(DisplayBackend, Seq<OutputView>)>
    decreases rs.len(),
{
    if rs.len() == 0 {
        Seq::empty()
    } else {
        let rest = listed(rs.drop_last());
        match rs.last().1 {
            Ok(v) => if v.len() > 0 { rest.push((rs.last().0, v)) } else { rest },
            Err(_) => rest,
        }
    }
}

/// The last reason a backend gave no outputs (an error, or that it listed
/// none); before any, that no tool was found.
pub open spec fn last_failure(rs: Seq<(DisplayBackend, Result<Seq<OutputView>, Seq<char>>)>) -> Seq<char>
    decreases rs.len(),
{
    if rs.len() == 0 {
        "No supported display management tool was found."@
    } else {
        match rs.last().1 {
            Ok(v) => if v.len() > 0 { last_failure(rs.drop_last()) } else { "No display outputs were detected."@ },
            Err(e) => e,
        }
    }
}

/// The outputs `xrandr` listed, if it listed some.
pub open spec fn xrandr_listing(ds: Seq<(DisplayBackend, Seq<OutputView>)>) -> Option<Seq<OutputView>>
    decreases ds.len(),
{
    if ds.len() == 0 {
        None
    } else if ds[0].0 == DisplayBackend::Xrandr {
        Some(ds[0].1)
    } else {
        xrandr_listing(ds.drop_first())
    }
}

proof fn lemma_xrandr_listing_push(ds: Seq<(DisplayBackend, Seq<OutputView>)>, e: (DisplayBackend, Seq<OutputView>))
    ensures
        xrandr_listing(ds.push(e)) == match xrandr_listing(ds) {
            Some(x) => Some(x),
            None => if e.0 == DisplayBackend::Xrandr { Some(e.1) } else { None },
        },
    decreases ds.len(),
{
    if ds.len() > 0 {
        assert(ds.push(e)[0] == ds[0]);
        assert(ds.push(e).drop_first() =~= ds.drop_first().push(e));
        lemma_xrandr_listing_push(ds.drop_first(), e);
        if ds[0].0 != DisplayBackend::Xrandr {
            assert(xrandr_listing(ds) == xrandr_listing(ds.drop_first()));
            assert(xrandr_listing(ds.push(e)) == xrandr_listing(ds.push(e).drop_first()));
        }
    } else {
        assert(ds.push(e)[0] == e);
        assert(ds.push(e).drop_first() =~= Seq::<(DisplayBackend, Seq<OutputView>)>::empty());
        assert(xrandr_listing(Seq::<(DisplayBackend, Seq<OutputView>)>::empty()) is None);
        assert(xrandr_listing(ds) is None);
    }
}

/// The layout: the first backend that listed outputs, with its outputs merged
/// with what `xrandr` listed, when it listed some; else the last failure.
pub open spec fn discovery_spec(rs: Seq<(DisplayBackend, Result<Seq<OutputView>, Seq<char>>)>) -> Result<(DisplayBackend, Seq<OutputView>), Seq<char>> {
    let ds = listed(rs);
    if ds.len() == 0 {
        Err(last_failure(rs))
    } else {
        match xrandr_listing(ds) {
            Some(x) => Ok((ds[0].0, merge_spec(ds[0].1, x))),
            None => Ok((ds[0].0, ds[0].1)),
        }
    }
}

/// A backend result that lists some output.
pub open spec fn lists_some(r: (DisplayBackend, Result<Seq<OutputView>, Seq<char>>)) -> bool {
    r.1 matches Ok(v) && v.len() > 0
}

/// The outputs a backend result lists (none for an error).
pub open spec fn listed_outputs(r: (DisplayBackend, Result<Seq<OutputView>, Seq<char>>)) -> Seq<OutputView> {
    match r.1 {
        Ok(v) => v,
        Err(_) => Seq::empty(),
    }
}

/// Result `i` is the first, in the backends' order, that lists some output.
pub open spec fn first_listing(rs: Seq<(DisplayBackend, Result<Seq<OutputView>, Seq<char>>)>, i: int) -> bool {
    &&& 0 <= i < rs.len()
    &&& lists_some(rs[i])
    &&& forall|j: int| 0 <= j < i ==> !lists_some(#[trigger] rs[j])
}

/// Result `k` is the first `xrandr` result that lists some output.
pub open spec fn first_xrandr_listing(rs: Seq<(DisplayBackend, Result<Seq<OutputView>, Seq<char>>)>, k: int) -> bool {
    &&& 0 <= k < rs.len()
    &&& rs[k].0 == DisplayBackend::Xrandr
    &&& lists_some(rs[k])
    &&& forall|j: int| 0 <= j < k ==> !(#[trigger] rs[j].0 == DisplayBackend::Xrandr && lists_some(rs[j]))
}

proof fn lemma_listed_positions(rs: Seq<(DisplayBackend, Result<Seq<OutputView>, Seq<char>>)>)
    ensures
        listed(rs).len() == 0 <==> forall|j: int| 0 <= j < rs.len() ==> !lists_some(#[trigger] rs[j]),
        forall|i: int| first_listing(rs, i) ==> listed(rs)[0] == (rs[i].0, listed_outputs(rs[i])),
        forall|k: int| first_xrandr_listing(rs, k) ==> xrandr_listing(listed(rs)) == Some(listed_outputs(rs[k])),
        (forall|j: int| 0 <= j < rs.len() ==> !(#[trigger] rs[j].0 == DisplayBackend::Xrandr && lists_some(rs[j])))
            ==> xrandr_listing(listed(rs)) is None,
    decreases rs.len(),
{
    if rs.len() > 0 {
        let d = rs.drop_last();
        let n = rs.len() - 1;
        lemma_listed_positions(d);
        assert forall|j: int| 0 <= j < n implies d[j] == rs[j] by {}
        let e = (rs.last().0, listed_outputs(rs.last()));
        if lists_some(rs.last()) {
            assert(listed(rs) == listed(d).push(e));
            lemma_xrandr_listing_push(listed(d), e);
        } else {
            assert(listed(rs) == listed(d));
        }
        if listed(rs).len() == 0 {
            assert forall|j: int| 0 <= j < rs.len() implies !lists_some(#[trigger] rs[j]) by {
                if j < n {
                    assert(d[j] == rs[j]);
                    if lists_some(rs[j]) {
                        assert(!(forall|m: int| 0 <= m < d.len() ==> !lists_some(#[trigger] d[m])));
                    }
                }
            }
        } else {
            if forall|j: int| 0 <= j < rs.len() ==> !lists_some(#[trigger] rs[j]) {
                assert(!lists_some(rs[n]));
                assert forall|j: int| 0 <= j < d.len() implies !lists_some(#[trigger] d[j]) by {
                    assert(d[j] == rs[j]);
                }
            }
        }
        assert forall|i: int| first_listing(rs, i) implies listed(rs)[0] == (rs[i].0, listed_outputs(rs[i])) by {
            if i < n {
                assert(d[i] == rs[i]);
                assert forall|j: int| 0 <= j < i implies !lists_some(#[trigger] d[j]) by {
                    assert(d[j] == rs[j]);
                }
                assert(first_listing(d, i));
            } else {
                assert forall|j: int| 0 <= j < d.len() implies !lists_some(#[trigger] d[j]) by {
                    assert(d[j] == rs[j]);
                }
                assert(listed(d).len() == 0);
            }
        }
        assert forall|k: int| first_xrandr_listing(rs, k) implies xrandr_listing(listed(rs)) == Some(listed_outputs(rs[k])) by {
            if k < n {
                assert(d[k] == rs[k]);
                assert forall|j: int| 0 <= j < k implies !(#[trigger] d[j].0 == DisplayBackend::Xrandr && lists_some(d[j])) by {
                    assert(d[j] == rs[j]);
                }
                assert(first_xrandr_listing(d, k));
            } else {
                assert forall|j: int| 0 <= j < d.len() implies !(#[trigger] d[j].0 == DisplayBackend::Xrandr && lists_some(d[j])) by {
                    assert(d[j] == rs[j]);
                }
            }
        }
        if forall|j: int| 0 <= j < rs.len() ==> !(#[trigger] rs[j].0 == DisplayBackend::Xrandr && lists_some(rs[j])) {
            assert forall|j: int| 0 <= j < d.len() implies !(#[trigger] d[j].0 == DisplayBackend::Xrandr && lists_some(d[j])) by {
                assert(d[j] == rs[j]);
            }
            assert(!(rs[n].0 == DisplayBackend::Xrandr && lists_some(rs[n])));
        }
    }
}

/// Discovery picks the first backend, in the order given, that lists some
/// output, and fails only when none does. The layout is what that backend
/// listed, merged with what the first `xrandr` listing holds when `xrandr`
/// listed some output.
pub proof fn law_discovery_prefers_first(rs: Seq<(DisplayBackend, Result<Seq<OutputView>, Seq<char>>)>)
    ensures
        discovery_spec(rs) is Ok <==> exists|i: int| 0 <= i < rs.len() && lists_some(#[trigger] rs[i]),
        forall|i: int| #[trigger] first_listing(rs, i) ==> (discovery_spec(rs) matches Ok((b, outs)) && b == rs[i].0 && (
        (forall|j: int| 0 <= j < rs.len() ==> !(#[trigger] rs[j].0 == DisplayBackend::Xrandr && lists_some(rs[j]))) ==> outs
            == listed_outputs(rs[i]))),
        forall|i: int, k: int| #[trigger] first_listing(rs, i) && #[trigger] first_xrandr_listing(rs, k) ==> discovery_spec(rs)
            == Ok::<(DisplayBackend, Seq<OutputView>), Seq<char>>((rs[i].0, merge_spec(listed_outputs(rs[i]), listed_outputs(rs[k])))),
{
    lemma_listed_positions(rs);
    if exists|i: int| 0 <= i < rs.len() && lists_some(#[trigger] rs[i]) {
        lemma_first_listing_exists(rs, rs.len() as int);
    }
}

proof fn lemma_first_listing_exists(rs: Seq<(DisplayBackend, Result<Seq<OutputView>, Seq<char>>)>, n: int)
    requires
        0 <= n <= rs.len(),
        exists|i: int| 0 <= i < n && lists_some(#[trigger] rs[i]),
    ensures
        exists|i: int| first_listing(rs, i),
    decreases n,
{
    if exists|i: int| 0 <= i < n - 1 && lists_some(#[trigger] rs[i]) {
        lemma_first_listing_exists(rs, n - 1);
    } else {
        assert(lists_some(rs[n - 1]));
        assert(first_listing(rs, n - 1));
    }
}

fn copy_outputs(v: &Vec<DisplayOutput>) -> (r: Vec<DisplayOutput>)
    ensures
        r@ == v@,
{
    let mut r: Vec<DisplayOutput> = Vec::new();
    let mut i: usize = 0;
    while i < v.len()
        invariant
            i <= v@.len(),
            r@ == v@.subrange(0, i as int),
        decreases v@.len() - i,
    {
        r.push(v[i].duplicate());
        i += 1;
        assert(r@ =~= v@.subrange(0, i as int));
    }
    assert(r@ =~= v@);
    r
}

/// Chooses the layout from what each backend reported, in the backends' order.
pub fn select_discovered(results: &[(DisplayBackend, Result<Vec<DisplayOutput>, String>)]) -> (r: Result<(DisplayBackend, Vec<DisplayOutput>), String>)
    ensures
        match (r, discovery_spec(results_view(results@))) {
            (Ok((b, v)), Ok((sb, sv))) => b == sb && outputs_view(v@) == sv,
            (Err(e), Err(se)) => e@ == se,
            _ => false,
        },
{
    let ghost rv = results_view(results@);
    let mut first: Option<usize> = None;
    let mut xr: Option<usize> = None;
    let mut failure = String::from_str("No supported display management tool was found.");
    let mut i: usize = 0;
    assert(rv.subrange(0, 0) =~= Seq::<(DisplayBackend, Result<Seq<OutputView>, Seq<char>>)>::empty());
    while i < results.len()
        invariant
            rv == results_view(results@),
            i <= rv.len(),
            failure@ == last_failure(rv.subrange(0, i as int)),
            match first {
                Some(f) => f < i && listed(rv.subrange(0, i as int)).len() > 0 && listed(rv.subrange(0, i as int))[0] == (results@[f as int].0, outputs_view(results@[f as int].1->Ok_0@)) && results@[f as int].1 is Ok,
                None => listed(rv.subrange(0, i as int)).len() == 0,
            },
            match xr {
                Some(x) => x < i && results@[x as int].1 is Ok && xrandr_listing(listed(rv.subrange(0, i as int))) == Some(outputs_view(results@[x as int].1->Ok_0@)),
                None => xrandr_listing(listed(rv.subrange(0, i as int))) is None,
            },
        decreases rv.len() - i,
    {
        let ghost w = rv.subrange(0, i + 1);
        assert(w.drop_last() =~= rv.subrange(0, i as int));
        assert(w.last() == rv[i as int]);
        let (backend, result) = &results[i];
        match result {
            Ok(v) => {
                if v.len() > 0 {
                    proof {
                        let prev = listed(rv.subrange(0, i as int));
                        let now = listed(w);
                        assert(now == prev.push((*backend, outputs_view(v@))));
                        assert(forall|k: int| 0 <= k < prev.len() ==> now[k] == prev[k]);
                        lemma_xrandr_listing_push(prev, (*backend, outputs_view(v@)));
                    }
                    if first.is_none() {
                        first = Some(i);
                    }
                    if xr.is_none() && *backend == DisplayBackend::Xrandr {
                        xr = Some(i);
                    }
                } else {
                    assert(listed(w) == listed(rv.subrange(0, i as int)));
                    failure = String::from_str("No display outputs were detected.");
                }
            },
            Err(e) => {
                assert(listed(w) == listed(rv.subrange(0, i as int)));
                failure = e.clone();
            },
        }
        i += 1;
    }
    assert(rv.subrange(0, rv.len() as int) =~= rv);
    match first {
        Some(f) => {
            let pref = match &results[f].1 {
                Ok(v) => copy_outputs(v),
                Err(_) => Vec::new(),
            };
            match xr {
                Some(x) => {
                    let fallback = match &results[x].1 {
                        Ok(v) => copy_outputs(v),
                        Err(_) => Vec::new(),
                    };
                    Ok((results[f].0, merge_output_data(pref, fallback.as_slice())))
                },
                None => Ok((results[f].0, pref)),
            }
        },
        None => Err(failure),
    }
}

/// The outputs of a `kscreen-doctor -o` report; an error when the report is
/// not blank but names no output.
pub fn parse_kscreen_listing(output: &str) -> (r: Result<Vec<DisplayOutput>, String>)
    ensures
        match r {
            Ok(v) => outputs_view(v@) == kscreen_outputs(output@) && (kscreen_outputs(output@).len() > 0 || trim(output@).len() == 0),
            Err(e) => kscreen_outputs(output@).len() == 0 && trim(output@).len() > 0 && e@ == "Unable to parse kscreen-doctor output."@,
        },
{
    let outputs = parse_kscreen_outputs(output);
    if outputs.len() == 0 {
        let c = chars_of(output);
        let t = trim_chars(c.as_slice());
        if t.len() > 0 {
            return Err(String::from_str("Unable to parse kscreen-doctor output."));
        }
    }
    Ok(outputs)
}

/// The primary display among the outputs, or the error that it is gone.
pub fn find_primary(outputs: &[DisplayOutput], primary_output: &str) -> (r: Result<DisplayOutput, String>)
    ensures
        match r {
            Ok(o) => exists|i: int| is_first_named(outputs_view(outputs@), primary_output@, i) && o == outputs@[i],
            Err(e) => !has_named(outputs_view(outputs@), primary_output@) && e@ == primary_gone(primary_output@),
        },
{
    match find_output(outputs, primary_output) {
        Some(o) => Ok(o),
        None => {
            let mut e = chars_of("Primary display ");
            push_str(&mut e, primary_output);
            push_str(&mut e, " is no longer available.");
            Err(to_string(e.as_slice()))
        },
    }
}

} // verus!
