//! The two-input switcher: which outputs to pair up, the layout commands for
//! "laptop only" and "extended", and when to retry while the layout settles.
use crate::display::{
    filter_holds, find_output, first_named, has_named, is_first_named, anchor_choice, find_anchor_output, find_external_output, find_internal_output,
    find_known_external_output, first_where, has_connected_external_output, internal_choice,
    ks_arg, ks_position, lit, outputs_view, xy_text, CommandLine, DisplayBackend, DisplayOutput,
    OutputFilter, OutputView,
};
use crate::text::{chars_of, contains, contains_str, dec, eq_chars_str, push_dec, push_dec_signed, push_str, to_string, views};
use vstd::prelude::*;

verus! {

/// The input the switcher moves the external monitor to.
#[derive(Clone, Copy, Debug, PartialEq, Eq, Structural)]
pub enum SwitchTarget {
    Hdmi1,
    Hdmi2,
}

/// The VCP value of a target's input.
pub open spec fn target_value(t: SwitchTarget) -> Seq<char> {
    match t {
        SwitchTarget::Hdmi1 => "0x11"@,
        SwitchTarget::Hdmi2 => "0x12"@,
    }
}

/// The label of an input value the switcher knows.
pub open spec fn switch_label(value: Seq<char>) -> Seq<char> {
    if value == "0x11"@ {
        "HDMI 1"@
    } else if value == "0x12"@ {
        "HDMI 2"@
    } else {
        "Unknown input"@
    }
}

impl SwitchTarget {
    /// The VCP value of the target's input.
    pub fn value(self) -> (r: &'static str)
        ensures
            r@ == target_value(self),
    {
        proof {
            reveal_strlit("0x11");
            reveal_strlit("0x12");
        }
        match self {
            SwitchTarget::Hdmi1 => "0x11",
            SwitchTarget::Hdmi2 => "0x12",
        }
    }
}

/// The label of an input value: `HDMI 1`, `HDMI 2` or `Unknown input`.
pub fn switch_input_label(value: &str) -> (r: &'static str)
    ensures
        r@ == switch_label(value@),
{
    let v = chars_of(value);
    if eq_chars_str(v.as_slice(), "0x11") {
        "HDMI 1"
    } else if eq_chars_str(v.as_slice(), "0x12") {
        "HDMI 2"
    } else {
        "Unknown input"
    }
}

/// The label of a target.
pub fn target_label(target: SwitchTarget) -> (r: &'static str)
    ensures
        r@ == switch_label(target_value(target)),
{
    switch_input_label(target.value())
}

/// The tray menu entry to mark for the current input: the second for HDMI 2,
/// else the first.
pub fn selected_menu_index(current_input: Option<&str>) -> (r: usize)
    ensures
        r == (if current_input matches Some(v) && v@ == "0x12"@ { 1usize } else { 0usize }),
{
    match current_input {
        Some(v) => {
            let c = chars_of(v);
            if eq_chars_str(c.as_slice(), "0x12") {
                1
            } else {
                0
            }
        },
        None => 0,
    }
}

/// The target a tray click switches to: HDMI 2 from HDMI 1, else HDMI 1.
pub fn next_target(current_input: Option<&str>) -> (r: SwitchTarget)
    ensures
        r == (if current_input matches Some(v) && v@ == "0x11"@ { SwitchTarget::Hdmi2 } else { SwitchTarget::Hdmi1 }),
{
    match current_input {
        Some(v) => {
            let c = chars_of(v);
            if eq_chars_str(c.as_slice(), "0x11") {
                SwitchTarget::Hdmi2
            } else {
                SwitchTarget::Hdmi1
            }
        },
        None => SwitchTarget::Hdmi1,
    }
}

// ---------------------------------------------------------------------------
// Pairing outputs
// ---------------------------------------------------------------------------

/// The output the desktop is kept on and the external one to extend to.
#[derive(Debug)]
pub struct DisplayPair {
    pub anchor: DisplayOutput,
    pub external: DisplayOutput,
}

/// Which output is the external one: a connected external connector; with
/// `kscreen-doctor` also a known external connector that is not connected.
pub open spec fn external_choice(backend: DisplayBackend, v: Seq<OutputView>) -> Option<int> {
    match backend {
        DisplayBackend::KscreenDoctor => match first_where(v, OutputFilter::ExternalConnected) {
            Some(i) => Some(i),
            None => first_where(v, OutputFilter::KnownExternal),
        },
        DisplayBackend::Xrandr => first_where(v, OutputFilter::ExternalConnected),
    }
}

pub open spec fn no_anchor() -> Seq<char> {
    "Could not find any active display output."@
}

pub open spec fn no_secondary() -> Seq<char> {
    "Could not find a connected secondary display."@
}

pub open spec fn no_internal() -> Seq<char> {
    "Could not find the laptop's internal display."@
}

/// The anchor and external outputs among the outputs a backend lists.
pub fn detect_display_pair(backend: DisplayBackend, outputs: &[DisplayOutput]) -> (r: Result<DisplayPair, String>)
    ensures
        match r {
            Ok(p) => {
                &&& anchor_choice(outputs_view(outputs@)) matches Some(a) && p.anchor == outputs@[a]
                &&& external_choice(backend, outputs_view(outputs@)) matches Some(e) && p.external == outputs@[e]
            },
            Err(e) => if anchor_choice(outputs_view(outputs@)) is None {
                e@ == no_anchor()
            } else {
                external_choice(backend, outputs_view(outputs@)) is None && e@ == no_secondary()
            },
        },
{
    let anchor = match find_anchor_output(outputs) {
        Some(a) => a,
        None => {
            return Err(String::from_str("Could not find any active display output."));
        },
    };
    let external = match backend {
        DisplayBackend::KscreenDoctor => match find_external_output(outputs) {
            Some(e) => Some(e),
            None => find_known_external_output(outputs),
        },
        DisplayBackend::Xrandr => find_external_output(outputs),
    };
    match external {
        Some(external) => Ok(DisplayPair { anchor, external }),
        None => Err(String::from_str("Could not find a connected secondary display.")),
    }
}

/// The laptop's internal display among the outputs.
pub fn detect_internal_anchor(outputs: &[DisplayOutput]) -> (r: Result<DisplayOutput, String>)
    ensures
        match r {
            Ok(o) => internal_choice(outputs_view(outputs@)) matches Some(i) && o == outputs@[i],
            Err(e) => internal_choice(outputs_view(outputs@)) is None && e@ == no_internal(),
        },
{
    match find_internal_output(outputs) {
        Some(o) => Ok(o),
        None => Err(String::from_str("Could not find the laptop's internal display.")),
    }
}

/// The known layout of the usual setup (`eDP-1` below `HDMI-A-1`): the
/// external display's position and then the laptop's.
pub fn saved_hdmi1_layout_positions(pair: &DisplayPair) -> (r: Option<((u32, u32), (u32, u32))>)
    ensures
        r == if pair.anchor.name@ == "eDP-1"@ && pair.external.name@ == "HDMI-A-1"@ {
            Some(((0u32, 0u32), (459u32, 1440u32)))
        } else {
            None
        },
{
    let a = chars_of(pair.anchor.name.as_str());
    let e = chars_of(pair.external.name.as_str());
    if eq_chars_str(a.as_slice(), "eDP-1") && eq_chars_str(e.as_slice(), "HDMI-A-1") {
        Some(((0, 0), (459, 1440)))
    } else {
        None
    }
}

/// The mode of an output: its own, else (when a listing could be had) the
/// mode listed under its name, else for an internal output the mode of the
/// first internal output listed.
pub open spec fn mode_spec(o: OutputView, listing: Option<Seq<OutputView>>) -> Option<(u32, u32)> {
    match o.current_mode {
        Some(m) => Some(m),
        None => match listing {
            None => None,
            Some(v) => {
                let by_name = if has_named(v, o.name) {
                    v[first_named(v, o.name)].current_mode
                } else {
                    None
                };
                match by_name {
                    Some(m) => Some(m),
                    None => if o.internal {
                        match first_where(v, OutputFilter::Internal) {
                            Some(i) => v[i].current_mode,
                            None => None,
                        }
                    } else {
                        None
                    },
                }
            },
        },
    }
}

/// The mode of an output, from itself or from a fresh listing of the outputs.
pub fn resolve_output_mode(output: &DisplayOutput, listing: Option<&[DisplayOutput]>) -> (r: Option<(u32, u32)>)
    ensures
        r == mode_spec(output@, match listing {
            Some(l) => Some(outputs_view(l@)),
            None => None,
        }),
{
    if let Some(m) = output.current_mode {
        return Some(m);
    }
    let l = match listing {
        Some(l) => l,
        None => {
            return None;
        },
    };
    let ghost v = outputs_view(l@);
    let by_name = match find_output(l, output.name.as_str()) {
        Some(c) => {
            proof {
                let i = choose|i: int| is_first_named(v, output.name@, i) && c == l@[i];
                let j = first_named(v, output.name@);
                assert(has_named(v, output.name@)) by {
                    assert(v[i].name == output.name@);
                }
                assert(is_first_named(v, output.name@, j));
                if i < j {
                    assert(v[i].name == output.name@);
                } else if j < i {
                    assert(v[j].name == output.name@);
                }
            }
            c.current_mode
        },
        None => None,
    };
    if by_name.is_some() {
        return by_name;
    }
    if output.internal {
        match crate::display::first_where_exec(l, OutputFilter::Internal) {
            Some(k) => l[k].current_mode,
            None => None,
        }
    } else {
        None
    }
}

// ---------------------------------------------------------------------------
// Layout commands
// ---------------------------------------------------------------------------

/// `kscreen-doctor` settings that disable every output whose id is not the anchor's.
pub open spec fn ks_disable_others(v: Seq<OutputView>, anchor_id: Seq<char>) -> Seq<Seq<char>>
    decreases v.len(),
{
    if v.len() == 0 {
        Seq::empty()
    } else if v.last().id != anchor_id {
        ks_disable_others(v.drop_last(), anchor_id).push(ks_arg(v.last().id, ".disable"@))
    } else {
        ks_disable_others(v.drop_last(), anchor_id)
    }
}

/// `xrandr` arguments that turn off every output whose name is not the anchor's.
pub open spec fn xr_off_others(v: Seq<OutputView>, anchor_name: Seq<char>) -> Seq<Seq<char>>
    decreases v.len(),
{
    if v.len() == 0 {
        Seq::empty()
    } else if v.last().name != anchor_name {
        xr_off_others(v.drop_last(), anchor_name) + seq!["--output"@, v.last().name, "--off"@]
    } else {
        xr_off_others(v.drop_last(), anchor_name)
    }
}

/// The `xrandr` arguments of the pass that turns the other outputs off (and
/// sizes the screen to the anchor's mode, when it has one).
pub open spec fn xr_disable_pass(a: OutputView, v: Seq<OutputView>) -> Seq<Seq<char>> {
    xr_off_others(v, a.name) + match a.current_mode {
        Some((w, h)) => seq!["--fb"@, xy_text(w as int, h as int)],
        None => Seq::empty(),
    }
}

/// The commands that leave only the anchor on, as primary: one `kscreen-doctor`
/// call; or with `xrandr` a pass turning the others off (when there is
/// anything to say) and a pass turning the anchor on.
pub open spec fn anchor_only_spec(backend: DisplayBackend, a: OutputView, v: Seq<OutputView>) -> Seq<(Seq<char>, Seq<Seq<char>>)> {
    match backend {
        DisplayBackend::KscreenDoctor => seq![
            (
                "kscreen-doctor"@,
                seq![ks_arg(a.id, ".enable"@), ks_arg(a.id, ".primary"@), ks_position(a.id, 0, 0)] + ks_disable_others(v, a.id),
            ),
        ],
        DisplayBackend::Xrandr => {
            let enable = ("xrandr"@, seq!["--output"@, a.name, "--auto"@, "--primary"@]);
            if xr_disable_pass(a, v).len() > 0 {
                seq![("xrandr"@, xr_disable_pass(a, v)), enable]
            } else {
                seq![enable]
            }
        },
    }
}

pub open spec fn command_view(c: CommandLine) -> (Seq<char>, Seq<Seq<char>>) {
    (c.program@, views(c.args@))
}

pub open spec fn commands_view(v: Seq<CommandLine>) -> Seq<(Seq<char>, Seq<Seq<char>>)> {
    v.map_values(|c: CommandLine| command_view(c))
}

fn arg(id: &String, suffix: &str) -> (r: String)
    ensures
        r@ == ks_arg(id@, suffix@),
{
    let mut v = chars_of("output.");
    push_str(&mut v, id.as_str());
    push_str(&mut v, suffix);
    to_string(v.as_slice())
}

fn position_arg(id: &String, x: i64, y: i64) -> (r: String)
    requires
        x > i64::MIN,
        y > i64::MIN,
    ensures
        r@ == ks_position(id@, x as int, y as int),
{
    let mut v = chars_of("output.");
    push_str(&mut v, id.as_str());
    push_str(&mut v, ".position.");
    push_dec_signed(&mut v, x);
    push_str(&mut v, ",");
    push_dec_signed(&mut v, y);
    assert(v@ =~= ks_position(id@, x as int, y as int));
    to_string(v.as_slice())
}

fn push_view(args: &mut Vec<String>, s: String)
    ensures
        views(final(args)@) == views(old(args)@).push(s@),
{
    let ghost before = views(args@);
    args.push(s);
    assert(views(args@) =~= before.push(s@));
}

/// The commands that leave only the anchor display on.
pub fn anchor_only_commands(backend: DisplayBackend, anchor: &DisplayOutput, outputs: &[DisplayOutput]) -> (r: Vec<CommandLine>)
    ensures
        commands_view(r@) == anchor_only_spec(backend, anchor@, outputs_view(outputs@)),
{
    let ghost v = outputs_view(outputs@);
    let mut out: Vec<CommandLine> = Vec::new();
    match backend {
        DisplayBackend::KscreenDoctor => {
            let mut args: Vec<String> = Vec::new();
            push_view(&mut args, arg(&anchor.id, ".enable"));
            push_view(&mut args, arg(&anchor.id, ".primary"));
            push_view(&mut args, position_arg(&anchor.id, 0, 0));
            let ghost head = views(args@);
            assert(head =~= seq![ks_arg(anchor.id@, ".enable"@), ks_arg(anchor.id@, ".primary"@), ks_position(anchor.id@, 0, 0)]);
            let mut i: usize = 0;
            assert(v.subrange(0, 0) =~= Seq::<OutputView>::empty());
            assert(head + Seq::<Seq<char>>::empty() =~= head);
            while i < outputs.len()
                invariant
                    v == outputs_view(outputs@),
                    i <= v.len(),
                    views(args@) == head + ks_disable_others(v.subrange(0, i as int), anchor.id@),
                decreases v.len() - i,
            {
                let ghost w = v.subrange(0, i + 1);
                assert(w.drop_last() =~= v.subrange(0, i as int));
                assert(w.last() == outputs@[i as int]@);
                let ghost before = views(args@);
                if !(outputs[i].id == anchor.id) {
                    push_view(&mut args, arg(&outputs[i].id, ".disable"));
                    assert(ks_disable_others(w, anchor.id@) == ks_disable_others(v.subrange(0, i as int), anchor.id@).push(ks_arg(outputs@[i as int].id@, ".disable"@)));
                    assert(views(args@) =~= head + ks_disable_others(w, anchor.id@));
                } else {
                    assert(ks_disable_others(w, anchor.id@) == ks_disable_others(v.subrange(0, i as int), anchor.id@));
                }
                i += 1;
            }
            assert(v.subrange(0, v.len() as int) =~= v);
            let c = CommandLine { program: lit("kscreen-doctor"), args };
            let ghost cv = command_view(c);
            out.push(c);
            assert(commands_view(out@) =~= seq![cv]);
            assert(commands_view(out@) =~= anchor_only_spec(backend, anchor@, v));
        },
        DisplayBackend::Xrandr => {
            let mut args: Vec<String> = Vec::new();
            let mut i: usize = 0;
            assert(v.subrange(0, 0) =~= Seq::<OutputView>::empty());
            assert(views(args@) =~= Seq::<Seq<char>>::empty());
            while i < outputs.len()
                invariant
                    v == outputs_view(outputs@),
                    i <= v.len(),
                    views(args@) == xr_off_others(v.subrange(0, i as int), anchor.name@),
                decreases v.len() - i,
            {
                let ghost w = v.subrange(0, i + 1);
                assert(w.drop_last() =~= v.subrange(0, i as int));
                assert(w.last() == outputs@[i as int]@);
                if !(outputs[i].name == anchor.name) {
                    let ghost before = views(args@);
                    push_view(&mut args, lit("--output"));
                    push_view(&mut args, outputs[i].name.clone());
                    push_view(&mut args, lit("--off"));
                    assert(views(args@) =~= before + seq!["--output"@, outputs@[i as int].name@, "--off"@]);
                }
                i += 1;
            }
            assert(v.subrange(0, v.len() as int) =~= v);
            let ghost off = views(args@);
            if let Some((w, h)) = anchor.current_mode {
                push_view(&mut args, lit("--fb"));
                let mut t: Vec<char> = Vec::new();
                push_dec(&mut t, w as u64);
                push_str(&mut t, "x");
                push_dec(&mut t, h as u64);
                assert(t@ =~= xy_text(w as int, h as int));
                push_view(&mut args, to_string(t.as_slice()));
                assert(views(args@) =~= off + seq!["--fb"@, xy_text(w as int, h as int)]);
                assert(views(args@) =~= xr_disable_pass(anchor@, v));
            } else {
                assert(views(args@) =~= xr_disable_pass(anchor@, v));
            }
            let ghost pass = views(args@);
            assert(pass.len() == args@.len());
            assert(pass == xr_disable_pass(anchor@, v));
            if args.len() > 0 {
                let c = CommandLine { program: lit("xrandr"), args };
                let ghost cv = command_view(c);
                out.push(c);
                assert(commands_view(out@) =~= seq![("xrandr"@, pass)]);
            } else {
                assert(commands_view(out@) =~= Seq::<(Seq<char>, Seq<Seq<char>>)>::empty());
            }
            let mut enable: Vec<String> = Vec::new();
            push_view(&mut enable, lit("--output"));
            push_view(&mut enable, anchor.name.clone());
            push_view(&mut enable, lit("--auto"));
            push_view(&mut enable, lit("--primary"));
            let ghost before = commands_view(out@);
            assert(views(enable@) =~= seq!["--output"@, anchor.name@, "--auto"@, "--primary"@]);
            let c = CommandLine { program: lit("xrandr"), args: enable };
            out.push(c);
            assert(commands_view(out@) =~= before.push(("xrandr"@, seq!["--output"@, anchor.name@, "--auto"@, "--primary"@])));
            assert(commands_view(out@) =~= anchor_only_spec(backend, anchor@, v));
        },
    }
    out
}

/// The `kscreen-doctor` settings of the usual setup's known layout.
pub open spec fn saved_layout_args(p: DisplayPair, pos: ((u32, u32), (u32, u32))) -> Seq<Seq<char>> {
    let ((ex, ey), (ax, ay)) = pos;
    seq![
        ks_arg(p.external.id@, ".enable"@),
        ks_position(p.external.id@, ex as int, ey as int),
        ks_arg(p.anchor.id@, ".enable"@),
        ks_arg(p.anchor.id@, ".primary"@),
        ks_position(p.anchor.id@, ax as int, ay as int),
    ]
}

/// The `kscreen-doctor` command that extends to the external display in the
/// usual setup's known layout, when the pair is the usual setup.
pub fn saved_layout_command(pair: &DisplayPair) -> (r: Option<CommandLine>)
    ensures
        match r {
            Some(c) => {
                &&& pair.anchor.name@ == "eDP-1"@ && pair.external.name@ == "HDMI-A-1"@
                &&& command_view(c) == ("kscreen-doctor"@, saved_layout_args(*pair, ((0u32, 0u32), (459u32, 1440u32))))
            },
            None => !(pair.anchor.name@ == "eDP-1"@ && pair.external.name@ == "HDMI-A-1"@),
        },
{
    let ((ex, ey), (ax, ay)) = match saved_hdmi1_layout_positions(pair) {
        Some(p) => p,
        None => {
            return None;
        },
    };
    let mut args: Vec<String> = Vec::new();
    push_view(&mut args, arg(&pair.external.id, ".enable"));
    push_view(&mut args, position_arg(&pair.external.id, ex as i64, ey as i64));
    push_view(&mut args, arg(&pair.anchor.id, ".enable"));
    push_view(&mut args, arg(&pair.anchor.id, ".primary"));
    push_view(&mut args, position_arg(&pair.anchor.id, ax as i64, ay as i64));
    assert(views(args@) =~= saved_layout_args(*pair, ((ex, ey), (ax, ay))));
    Some(CommandLine { program: lit("kscreen-doctor"), args })
}

/// The first `kscreen-doctor` step of extending: the laptop at the origin and
/// the external display below it, so the two never overlap.
pub open spec fn provisional_args(p: DisplayPair, anchor_height: u32) -> Seq<Seq<char>> {
    seq![
        ks_arg(p.anchor.id@, ".enable"@),
        ks_arg(p.anchor.id@, ".primary"@),
        ks_position(p.anchor.id@, 0, 0),
        ks_arg(p.external.id@, ".enable"@),
        ks_position(p.external.id@, 0, anchor_height as int),
    ]
}

/// The second step: the external display at the origin and the laptop below it.
pub open spec fn positioned_args(p: DisplayPair, external_height: u32) -> Seq<Seq<char>> {
    seq![
        ks_arg(p.external.id@, ".enable"@),
        ks_position(p.external.id@, 0, 0),
        ks_arg(p.anchor.id@, ".enable"@),
        ks_arg(p.anchor.id@, ".primary"@),
        ks_position(p.anchor.id@, 0, external_height as int),
    ]
}

/// The first step of extending, given the laptop display's mode (an error
/// when it could not be determined).
pub fn provisional_command(pair: &DisplayPair, anchor_mode: Option<(u32, u32)>) -> (r: Result<CommandLine, String>)
    ensures
        match anchor_mode {
            Some((_, h)) => r matches Ok(c) && command_view(c) == ("kscreen-doctor"@, provisional_args(*pair, h)),
            None => r matches Err(e) && e@ == "Could not determine laptop display mode."@,
        },
{
    let h = match anchor_mode {
        Some((_, h)) => h,
        None => {
            return Err(String::from_str("Could not determine laptop display mode."));
        },
    };
    let mut args: Vec<String> = Vec::new();
    push_view(&mut args, arg(&pair.anchor.id, ".enable"));
    push_view(&mut args, arg(&pair.anchor.id, ".primary"));
    push_view(&mut args, position_arg(&pair.anchor.id, 0, 0));
    push_view(&mut args, arg(&pair.external.id, ".enable"));
    push_view(&mut args, position_arg(&pair.external.id, 0, h as i64));
    assert(views(args@) =~= provisional_args(*pair, h));
    Ok(CommandLine { program: lit("kscreen-doctor"), args })
}

/// The second step of extending, given the external display's mode (an
/// error when it could not be determined).
pub fn positioned_command(pair: &DisplayPair, external_mode: Option<(u32, u32)>) -> (r: Result<CommandLine, String>)
    ensures
        match external_mode {
            Some((_, h)) => r matches Ok(c) && command_view(c) == ("kscreen-doctor"@, positioned_args(*pair, h)),
            None => r matches Err(e) && e@ == "Could not determine secondary display mode."@,
        },
{
    let h = match external_mode {
        Some((_, h)) => h,
        None => {
            return Err(String::from_str("Could not determine secondary display mode."));
        },
    };
    let mut args: Vec<String> = Vec::new();
    push_view(&mut args, arg(&pair.external.id, ".enable"));
    push_view(&mut args, position_arg(&pair.external.id, 0, 0));
    push_view(&mut args, arg(&pair.anchor.id, ".enable"));
    push_view(&mut args, arg(&pair.anchor.id, ".primary"));
    push_view(&mut args, position_arg(&pair.anchor.id, 0, h as i64));
    assert(views(args@) =~= positioned_args(*pair, h));
    Ok(CommandLine { program: lit("kscreen-doctor"), args })
}

/// The two `xrandr` commands that extend: the laptop on as primary, then the
/// external display above it.
pub fn xrandr_extend_commands(pair: &DisplayPair) -> (r: Vec<CommandLine>)
    ensures
        commands_view(r@) == seq![
            ("xrandr"@, seq!["--output"@, pair.anchor.name@, "--auto"@, "--primary"@]),
            ("xrandr"@, seq!["--output"@, pair.external.name@, "--auto"@, "--above"@, pair.anchor.name@]),
        ],
{
    let mut a: Vec<String> = Vec::new();
    push_view(&mut a, lit("--output"));
    push_view(&mut a, pair.anchor.name.clone());
    push_view(&mut a, lit("--auto"));
    push_view(&mut a, lit("--primary"));
    let mut e: Vec<String> = Vec::new();
    push_view(&mut e, lit("--output"));
    push_view(&mut e, pair.external.name.clone());
    push_view(&mut e, lit("--auto"));
    push_view(&mut e, lit("--above"));
    push_view(&mut e, pair.anchor.name.clone());
    assert(views(a@) =~= seq!["--output"@, pair.anchor.name@, "--auto"@, "--primary"@]);
    assert(views(e@) =~= seq!["--output"@, pair.external.name@, "--auto"@, "--above"@, pair.anchor.name@]);
    let mut out: Vec<CommandLine> = Vec::new();
    let ca = CommandLine { program: lit("xrandr"), args: a };
    let ce = CommandLine { program: lit("xrandr"), args: e };
    let ghost va = command_view(ca);
    let ghost ve = command_view(ce);
    out.push(ca);
    out.push(ce);
    assert(commands_view(out@) =~= seq![va, ve]);
    out
}

/// One step of extending to the external display.
#[derive(Debug)]
pub enum ExtendStep {
    /// Run this command.
    Run(CommandLine),
    /// Read the laptop display's mode, then run `provisional_command` with it.
    Provisional,
    /// Read the external display's mode, then run `positioned_command` with it.
    Positioned,
}

/// The command of a `Run` step.
pub open spec fn step_command(s: ExtendStep) -> Option<(Seq<char>, Seq<Seq<char>>)> {
    match s {
        ExtendStep::Run(c) => Some(command_view(c)),
        _ => None,
    }
}

/// The steps of extending, in order: with `kscreen-doctor`, the known layout
/// in one command when the pair is the usual setup, else the provisional
/// layout and then the positioned one; with `xrandr`, the laptop on as primary
/// and then the external display above it.
pub fn extend_steps(backend: DisplayBackend, pair: &DisplayPair) -> (r: Vec<ExtendStep>)
    ensures
        backend == DisplayBackend::KscreenDoctor && pair.anchor.name@ == "eDP-1"@ && pair.external.name@ == "HDMI-A-1"@ ==> r@.len()
            == 1 && step_command(r@[0]) == Some(("kscreen-doctor"@, saved_layout_args(*pair, ((0u32, 0u32), (459u32, 1440u32))))),
        backend == DisplayBackend::KscreenDoctor && !(pair.anchor.name@ == "eDP-1"@ && pair.external.name@ == "HDMI-A-1"@) ==> r@.len()
            == 2 && r@[0] is Provisional && r@[1] is Positioned,
        backend == DisplayBackend::Xrandr ==> r@.len() == 2 && step_command(r@[0]) == Some(
            ("xrandr"@, seq!["--output"@, pair.anchor.name@, "--auto"@, "--primary"@]),
        ) && step_command(r@[1]) == Some(("xrandr"@, seq!["--output"@, pair.external.name@, "--auto"@, "--above"@, pair.anchor.name@])),
{
    let mut r: Vec<ExtendStep> = Vec::new();
    match backend {
        DisplayBackend::KscreenDoctor => match saved_layout_command(pair) {
            Some(c) => {
                r.push(ExtendStep::Run(c));
            },
            None => {
                r.push(ExtendStep::Provisional);
                r.push(ExtendStep::Positioned);
            },
        },
        DisplayBackend::Xrandr => {
            let mut cs = xrandr_extend_commands(pair);
            let ghost v = commands_view(cs@);
            assert(v.len() == 2);
            assert(cs@.len() == 2);
            assert(v[0] == command_view(cs@[0]) && v[1] == command_view(cs@[1]));
            let e = cs.pop().unwrap();
            let a = cs.pop().unwrap();
            r.push(ExtendStep::Run(a));
            r.push(ExtendStep::Run(e));
        },
    }
    r
}

/// What an attempt at going laptop-only does first.
#[derive(Clone, Copy, Debug, PartialEq, Eq, Structural)]
pub enum LaptopOnlyStep {
    /// Apply the laptop-only layout.
    Apply,
    /// List the outputs and check them (`laptop_only_check`).
    Check,
}

/// The first attempt applies the layout; every later one checks first.
pub fn laptop_only_step(attempt: usize) -> (r: LaptopOnlyStep)
    ensures
        r == (if attempt == 0 { LaptopOnlyStep::Apply } else { LaptopOnlyStep::Check }),
{
    if attempt == 0 {
        LaptopOnlyStep::Apply
    } else {
        LaptopOnlyStep::Check
    }
}

// ---------------------------------------------------------------------------
// Retrying while the layout settles
// ---------------------------------------------------------------------------

/// How many times each layout is tried.
pub const LAYOUT_ATTEMPTS: usize = 10;

/// How many quiet checks in a row mean the laptop-only layout has settled.
pub const STABILITY_CHECKS: u32 = 4;

/// An error worth retrying while extending: the displays are still appearing.
pub open spec fn transient_extend_error(e: Seq<char>) -> bool {
    contains(e, "Could not find any active display output."@) || contains(e, "Could not find a connected secondary display."@)
        || contains(e, "Unable to parse kscreen-doctor output."@) || contains(e, "BadMatch"@) || contains(
        e,
        "Configure crtc"@,
    ) || contains(e, "cannot find mode"@)
}

/// An error worth retrying while going laptop-only.
pub open spec fn transient_laptop_error(e: Seq<char>) -> bool {
    contains(e, "Could not find the laptop's internal display."@) || contains(e, "Unable to parse kscreen-doctor output."@)
        || contains(e, "BadMatch"@) || contains(e, "Configure crtc"@) || contains(e, "cannot find mode"@)
}

/// Whether an error while extending is worth retrying.
pub fn is_transient_hdmi1_layout_error(err: &str) -> (b: bool)
    ensures
        b == transient_extend_error(err@),
{
    let e = chars_of(err);
    let e = e.as_slice();
    contains_str(e, "Could not find any active display output.") || contains_str(e, "Could not find a connected secondary display.")
        || contains_str(e, "Unable to parse kscreen-doctor output.") || contains_str(e, "BadMatch") || contains_str(
        e,
        "Configure crtc",
    ) || contains_str(e, "cannot find mode")
}

/// Whether an error while going laptop-only is worth retrying.
pub fn is_transient_hdmi2_layout_error(err: &str) -> (b: bool)
    ensures
        b == transient_laptop_error(err@),
{
    let e = chars_of(err);
    let e = e.as_slice();
    contains_str(e, "Could not find the laptop's internal display.") || contains_str(e, "Unable to parse kscreen-doctor output.")
        || contains_str(e, "BadMatch") || contains_str(e, "Configure crtc") || contains_str(e, "cannot find mode")
}

/// After attempt `attempt` (from 0) to extend failed with `err`: whether to
/// try again (an attempt is left and the error is transient).
pub fn retry_extend(attempt: usize, err: &str) -> (b: bool)
    ensures
        b == (attempt + 1 < LAYOUT_ATTEMPTS && transient_extend_error(err@)),
{
    attempt < LAYOUT_ATTEMPTS - 1 && is_transient_hdmi1_layout_error(err)
}

/// Progress of going laptop-only: quiet checks in a row, and whether the
/// extra `kscreen-doctor` disable pass was made.
#[derive(Clone, Copy, Debug, PartialEq, Eq, Structural)]
pub struct LaptopOnlyProgress {
    pub stable_checks: u32,
    pub finalized_topology_disable: bool,
}

/// What a check of the outputs calls for.
#[derive(Clone, Copy, Debug, PartialEq, Eq, Structural)]
pub enum LaptopOnlyCheck {
    /// An external display is still on: apply the laptop-only layout again.
    Reapply,
    /// `kscreen-doctor` still lists other outputs: apply it once more, and on
    /// success record the disable pass as made.
    Finalize,
    /// Nothing to do: one more quiet check.
    Quiet,
}

/// The progress before the first attempt: the disable pass only matters with
/// `kscreen-doctor`.
pub fn laptop_only_start(backend: DisplayBackend) -> (r: LaptopOnlyProgress)
    ensures
        r == (LaptopOnlyProgress { stable_checks: 0, finalized_topology_disable: backend != DisplayBackend::KscreenDoctor }),
{
    LaptopOnlyProgress { stable_checks: 0, finalized_topology_disable: !(backend == DisplayBackend::KscreenDoctor) }
}

/// Some connected external output is active.
pub open spec fn any_active_external(v: Seq<OutputView>) -> bool {
    exists|i: int| 0 <= i < v.len() && filter_holds(OutputFilter::ActiveExternal, #[trigger] v[i])
}

/// What a later attempt does after listing the outputs, and the progress it
/// leaves: a connected external output means reapplying (quiet count reset);
/// with `kscreen-doctor` and several outputs listed before the disable pass,
/// the pass (count reset); else one more quiet check.
pub fn laptop_only_check(progress: LaptopOnlyProgress, backend: DisplayBackend, outputs: &[DisplayOutput]) -> (r: (LaptopOnlyProgress, LaptopOnlyCheck))
    requires
        progress.stable_checks < u32::MAX,
    ensures
        any_active_external(outputs_view(outputs@)) ==> r == (
        LaptopOnlyProgress { stable_checks: 0, finalized_topology_disable: progress.finalized_topology_disable },
        LaptopOnlyCheck::Reapply),
        !any_active_external(outputs_view(outputs@)) && backend == DisplayBackend::KscreenDoctor
            && !progress.finalized_topology_disable && outputs@.len() > 1 ==> r == (
        LaptopOnlyProgress { stable_checks: 0, finalized_topology_disable: false },
        LaptopOnlyCheck::Finalize),
        !any_active_external(outputs_view(outputs@)) && !(backend == DisplayBackend::KscreenDoctor
            && !progress.finalized_topology_disable && outputs@.len() > 1) ==> r == (
        LaptopOnlyProgress { stable_checks: (progress.stable_checks + 1) as u32, finalized_topology_disable: progress.finalized_topology_disable },
        LaptopOnlyCheck::Quiet),
{
    if has_connected_external_output(outputs) {
        (LaptopOnlyProgress { stable_checks: 0, finalized_topology_disable: progress.finalized_topology_disable }, LaptopOnlyCheck::Reapply)
    } else if backend == DisplayBackend::KscreenDoctor && !progress.finalized_topology_disable && outputs.len() > 1 {
        (LaptopOnlyProgress { stable_checks: 0, finalized_topology_disable: false }, LaptopOnlyCheck::Finalize)
    } else {
        (
            LaptopOnlyProgress {
                stable_checks: progress.stable_checks + 1,
                finalized_topology_disable: progress.finalized_topology_disable,
            },
            LaptopOnlyCheck::Quiet,
        )
    }
}

/// The progress after the disable pass that a `Finalize` check called for
/// ended with `applied`: the pass counts as made only when it succeeded.
pub fn laptop_only_finalized(progress: LaptopOnlyProgress, applied: &Result<(), String>) -> (r: LaptopOnlyProgress)
    ensures
        r == (LaptopOnlyProgress {
            stable_checks: progress.stable_checks,
            finalized_topology_disable: progress.finalized_topology_disable || applied is Ok,
        }),
{
    match applied {
        Ok(()) => LaptopOnlyProgress { stable_checks: progress.stable_checks, finalized_topology_disable: true },
        Err(_) => progress,
    }
}

/// What comes after an attempt at going laptop-only.
#[derive(Clone, Debug, PartialEq, Eq)]
pub enum LaptopOnlyNext {
    /// The layout has settled.
    Done,
    /// Wait and try again.
    Retry,
    /// Stop with this error.
    Fail(String),
    /// The attempts ran out without an error: settled if any check was quiet.
    OutOfAttempts,
}

/// The step after attempt `attempt` (from 0) ended with `result`.
pub fn laptop_only_next(attempt: usize, stable_checks: u32, result: &Result<(), String>) -> (r: LaptopOnlyNext)
    ensures
        match result {
            Ok(()) => r == if stable_checks >= STABILITY_CHECKS {
                LaptopOnlyNext::Done
            } else if attempt + 1 < LAYOUT_ATTEMPTS {
                LaptopOnlyNext::Retry
            } else {
                LaptopOnlyNext::OutOfAttempts
            },
            Err(e) => if attempt + 1 < LAYOUT_ATTEMPTS && transient_laptop_error(e@) {
                r == LaptopOnlyNext::Retry
            } else {
                r matches LaptopOnlyNext::Fail(f) && f@ == e@
            },
        },
{
    match result {
        Ok(()) => {
            if stable_checks >= STABILITY_CHECKS {
                LaptopOnlyNext::Done
            } else if attempt < LAYOUT_ATTEMPTS - 1 {
                LaptopOnlyNext::Retry
            } else {
                LaptopOnlyNext::OutOfAttempts
            }
        },
        Err(e) => {
            if attempt < LAYOUT_ATTEMPTS - 1 && is_transient_hdmi2_layout_error(e.as_str()) {
                LaptopOnlyNext::Retry
            } else {
                LaptopOnlyNext::Fail(e.clone())
            }
        },
    }
}

/// The outcome when the attempts ran out: settled if some check was quiet,
/// else the last error.
pub fn laptop_only_outcome(stable_checks: u32, last_error: String) -> (r: Result<(), String>)
    ensures
        stable_checks > 0 ==> r is Ok,
        stable_checks == 0 ==> (r matches Err(e) && e@ == last_error@),
{
    if stable_checks > 0 {
        Ok(())
    } else {
        Err(last_error)
    }
}

} // verus!
