//! Monitors as the app sees them, and the parsers for `ddcutil` output.
use crate::text::{
    all_hexdigits, chars_of, hex_byte, hex_digit_value, is_ascii_hexdigit, is_hexdigit, is_ws,
    lemma_trim_end_at, lemma_trim_start_at, lower_hex_char, parse_hex_u8, parse_hex_u8_chars,
    push_all, push_hex_byte, radix_value, starts_with, to_string, trim, trim_chars, trim_end,
    trim_start, trim_start_matches, trim_start_matches_str, unsigned_body, upper, upper_chars,
    find, find_chars, eq_chars, eq_chars_str, is_first_occurrence, occurs_at, is_whitespace, copy_range, lines,
    split_lines, seqs, split_once, split_once_char, replace_char, replace_char_chars,
    starts_with_str, strip_prefix, strip_prefix_str, parse_u32, parse_u32_chars, split_char,
    split_char_chars,
};
use vstd::prelude::*;

verus! {

/// The VCP feature code of the input source.
pub const INPUT_VCP_CODE: &'static str = "60";

/// All monitors known at one moment.
#[derive(Debug)]
pub struct MonitorSnapshot {
    pub monitors: Vec<MonitorInfo>,
}

/// One monitor: a display output, with its DDC/CI side where one was matched.
#[derive(Debug)]
pub struct MonitorInfo {
    pub id: String,
    pub display_name: String,
    pub output_name: String,
    pub connected: bool,
    pub active: bool,
    pub internal: bool,
    pub position: Option<(i32, i32)>,
    pub current_mode: Option<(u32, u32)>,
    pub ddc: Option<DdcMonitorInfo>,
}

/// What DDC/CI reports about a monitor.
#[derive(Debug)]
pub struct DdcMonitorInfo {
    pub display_number: u32,
    pub current_input: Option<String>,
    pub supported_inputs: Vec<InputSource>,
    pub capabilities_known: bool,
    pub input_switching_supported: bool,
}

/// One input a monitor offers: its VCP value (`0x..`) and a label.
#[derive(Clone, Debug, Eq, PartialEq)]
pub struct InputSource {
    pub value: String,
    pub label: String,
}

/// A monitor found by `ddcutil detect`.
#[derive(Debug)]
pub struct DiscoveredDdcMonitor {
    pub display_number: u32,
    pub bus: Option<String>,
    pub manufacturer: String,
    pub model: String,
    pub serial: String,
    pub current_input: Option<String>,
    pub supported_inputs: Vec<InputSource>,
    pub capabilities_known: bool,
    pub input_switching_supported: bool,
}

/// The value and label of an input, as text.
pub open spec fn input_view(i: InputSource) -> (Seq<char>, Seq<char>) {
    (i.value@, i.label@)
}

pub open spec fn inputs_view(v: Seq<InputSource>) -> Seq<(Seq<char>, Seq<char>)> {
    v.map_values(|i: InputSource| input_view(i))
}

/// What `ddcutil detect --brief` says of one display.
pub struct DetectedDisplay {
    pub display_number: u32,
    pub bus: Option<Seq<char>>,
    pub manufacturer: Seq<char>,
    pub model: Seq<char>,
    pub serial: Seq<char>,
}

impl DiscoveredDdcMonitor {
    /// The part of the monitor that detection fills in.
    pub open spec fn detected(&self) -> DetectedDisplay {
        DetectedDisplay {
            display_number: self.display_number,
            bus: match self.bus {
                Some(b) => Some(b@),
                None => None,
            },
            manufacturer: self.manufacturer@,
            model: self.model@,
            serial: self.serial@,
        }
    }

    /// Nothing beyond detection is known yet.
    pub open spec fn only_detected(&self) -> bool {
        &&& self.current_input is None
        &&& self.supported_inputs@.len() == 0
        &&& !self.capabilities_known
        &&& !self.input_switching_supported
    }
}

// ---------------------------------------------------------------------------
// Input values and labels
// ---------------------------------------------------------------------------

/// The byte an input value names: surrounding whitespace and any leading `0x` / `0X`
/// removed, then read as hexadecimal.
pub open spec fn hex_value_byte(v: Seq<char>) -> Option<u8> {
    let t = trim(v);
    let n = trim_start_matches(trim_start_matches(t, "0x"@), "0X"@);
    if t.len() == 0 || n.len() == 0 || !all_hexdigits(n) {
        None
    } else {
        parse_hex_u8(n)
    }
}

/// An input value in its canonical form `0x..` (two lower-case hex digits).
pub open spec fn normalize_hex(v: Seq<char>) -> Option<Seq<char>> {
    match hex_value_byte(v) {
        Some(b) => Some(hex_byte(b)),
        None => None,
    }
}

/// The standard MCCS name of an input code.
pub open spec fn input_code_label(b: u8) -> Option<Seq<char>> {
    if b == 0x01 {
        Some("VGA 1"@)
    } else if b == 0x02 {
        Some("VGA 2"@)
    } else if b == 0x03 {
        Some("DVI 1"@)
    } else if b == 0x04 {
        Some("DVI 2"@)
    } else if b == 0x05 {
        Some("Composite 1"@)
    } else if b == 0x06 {
        Some("Composite 2"@)
    } else if b == 0x07 {
        Some("S-Video 1"@)
    } else if b == 0x08 {
        Some("S-Video 2"@)
    } else if b == 0x09 {
        Some("Tuner 1"@)
    } else if b == 0x0a {
        Some("Tuner 2"@)
    } else if b == 0x0b {
        Some("Tuner 3"@)
    } else if b == 0x0c {
        Some("Component 1"@)
    } else if b == 0x0d {
        Some("Component 2"@)
    } else if b == 0x0e {
        Some("Component 3"@)
    } else if b == 0x0f {
        Some("DisplayPort 1"@)
    } else if b == 0x10 {
        Some("DisplayPort 2"@)
    } else if b == 0x11 {
        Some("HDMI 1"@)
    } else if b == 0x12 {
        Some("HDMI 2"@)
    } else {
        None
    }
}

/// The label shown for an input value.
pub open spec fn input_label_spec(v: Seq<char>) -> Seq<char> {
    match hex_value_byte(v) {
        Some(b) => match input_code_label(b) {
            Some(l) => l,
            None => "Input "@ + upper(hex_byte(b)),
        },
        None => "Unknown input"@,
    }
}

/// The inputs offered when a monitor does not list its own.
pub open spec fn fallback_inputs_spec(current: Option<Seq<char>>) -> Seq<(Seq<char>, Seq<char>)> {
    let base = seq![
        ("0x0f"@, "DisplayPort 1"@),
        ("0x10"@, "DisplayPort 2"@),
        ("0x11"@, "HDMI 1"@),
        ("0x12"@, "HDMI 2"@),
    ];
    match current {
        Some(c) => match normalize_hex(c) {
            Some(v) => if (forall|i: int| 0 <= i < base.len() ==> base[i].0 != v) {
                base.push((v, input_label_spec(v)))
            } else {
                base
            },
            None => base,
        },
        None => base,
    }
}

/// The byte an input value names, if it names one.
pub fn hex_value_byte_of(value: &[char]) -> (r: Option<u8>)
    ensures
        r == hex_value_byte(value@),
{
    let t = trim_chars(value);
    if t.len() == 0 {
        return None;
    }
    proof {
        reveal_strlit("0x");
        reveal_strlit("0X");
    }
    let a = trim_start_matches_str(t.as_slice(), "0x");
    let n = trim_start_matches_str(a.as_slice(), "0X");
    if n.len() == 0 {
        return None;
    }
    let mut i: usize = 0;
    while i < n.len()
        invariant
            i <= n@.len(),
            t@.len() > 0,
            t@ == trim(value@),
            n@ == trim_start_matches(trim_start_matches(t@, "0x"@), "0X"@),
            forall|k: int| 0 <= k < i ==> is_ascii_hexdigit(#[trigger] n@[k]),
        decreases n@.len() - i,
    {
        if !is_hexdigit(n[i]) {
            assert(!is_ascii_hexdigit(n@[i as int]));
            return None;
        }
        i += 1;
    }
    parse_hex_u8_chars(n.as_slice())
}

/// The canonical form of an input value, as characters.
pub fn normalize_hex_chars(value: &[char]) -> (r: Option<Vec<char>>)
    ensures
        match r {
            Some(v) => normalize_hex(value@) == Some(v@),
            None => normalize_hex(value@) is None,
        },
{
    match hex_value_byte_of(value) {
        Some(b) => {
            let mut out: Vec<char> = Vec::new();
            push_hex_byte(&mut out, b);
            assert(out@ =~= hex_byte(b));
            Some(out)
        },
        None => None,
    }
}

/// An input value in its canonical form `0x..`, or `None` when it is not a
/// hexadecimal byte.
pub fn normalize_hex_value(value: &str) -> (r: Option<String>)
    ensures
        match r {
            Some(v) => normalize_hex(value@) == Some(v@),
            None => normalize_hex(value@) is None,
        },
{
    let v = chars_of(value);
    match normalize_hex_chars(v.as_slice()) {
        Some(n) => Some(to_string(n.as_slice())),
        None => None,
    }
}

fn code_label(b: u8) -> (r: Option<&'static str>)
    ensures
        match r {
            Some(l) => input_code_label(b) == Some(l@),
            None => input_code_label(b) is None,
        },
{
    match b {
        0x01 => Some("VGA 1"),
        0x02 => Some("VGA 2"),
        0x03 => Some("DVI 1"),
        0x04 => Some("DVI 2"),
        0x05 => Some("Composite 1"),
        0x06 => Some("Composite 2"),
        0x07 => Some("S-Video 1"),
        0x08 => Some("S-Video 2"),
        0x09 => Some("Tuner 1"),
        0x0a => Some("Tuner 2"),
        0x0b => Some("Tuner 3"),
        0x0c => Some("Component 1"),
        0x0d => Some("Component 2"),
        0x0e => Some("Component 3"),
        0x0f => Some("DisplayPort 1"),
        0x10 => Some("DisplayPort 2"),
        0x11 => Some("HDMI 1"),
        0x12 => Some("HDMI 2"),
        _ => None,
    }
}

/// The label of an input value, as characters.
pub fn input_label_chars(value: &[char]) -> (r: Vec<char>)
    ensures
        r@ == input_label_spec(value@),
{
    match hex_value_byte_of(value) {
        Some(b) => match code_label(b) {
            Some(l) => chars_of(l),
            None => {
                let mut hex: Vec<char> = Vec::new();
                push_hex_byte(&mut hex, b);
                let up = upper_chars(hex.as_slice());
                let mut out = chars_of("Input ");
                push_all(&mut out, up.as_slice());
                out
            },
        },
        None => chars_of("Unknown input"),
    }
}

/// The label shown for an input value: the standard name of the input code,
/// `Input 0X..` for other codes, `Unknown input` when the value is no code.
pub fn input_label(value: &str) -> (r: String)
    ensures
        r@ == input_label_spec(value@),
{
    let v = chars_of(value);
    let l = input_label_chars(v.as_slice());
    to_string(l.as_slice())
}

fn input_source(value: &str, label: &str) -> (r: InputSource)
    ensures
        input_view(r) == (value@, label@),
{
    InputSource { value: String::from_str(value), label: String::from_str(label) }
}

pub proof fn lemma_hex_byte_injective(a: u8, b: u8)
    requires
        hex_byte(a) == hex_byte(b),
    ensures
        a == b,
{
    assert(hex_byte(a)[2] == hex_byte(b)[2]);
    assert(hex_byte(a)[3] == hex_byte(b)[3]);
    assert(lower_hex_char(a as nat / 16) == lower_hex_char(b as nat / 16));
    assert(lower_hex_char(a as nat % 16) == lower_hex_char(b as nat % 16));
    assert(a as nat / 16 == b as nat / 16);
    assert(a as nat % 16 == b as nat % 16);
}

/// DisplayPort 1/2 and HDMI 1/2, and the current input when it is another one.
pub fn fallback_input_choices(current_input: Option<&str>) -> (r: Vec<InputSource>)
    ensures
        inputs_view(r@) == fallback_inputs_spec(
            match current_input {
                Some(c) => Some(c@),
                None => None,
            },
        ),
{
    let mut inputs: Vec<InputSource> = Vec::new();
    inputs.push(input_source("0x0f", "DisplayPort 1"));
    inputs.push(input_source("0x10", "DisplayPort 2"));
    inputs.push(input_source("0x11", "HDMI 1"));
    inputs.push(input_source("0x12", "HDMI 2"));
    let ghost base = seq![
        ("0x0f"@, "DisplayPort 1"@),
        ("0x10"@, "DisplayPort 2"@),
        ("0x11"@, "HDMI 1"@),
        ("0x12"@, "HDMI 2"@),
    ];
    assert(inputs_view(inputs@) =~= base);
    if let Some(c) = current_input {
        let cv = chars_of(c);
        if let Some(b) = hex_value_byte_of(cv.as_slice()) {
            let listed = 0x0f <= b && b <= 0x12;
            proof {
                reveal_strlit("0x0f");
                reveal_strlit("0x10");
                reveal_strlit("0x11");
                reveal_strlit("0x12");
                assert("0x0f"@ =~= hex_byte(0x0f));
                assert("0x10"@ =~= hex_byte(0x10));
                assert("0x11"@ =~= hex_byte(0x11));
                assert("0x12"@ =~= hex_byte(0x12));
                if !listed {
                    assert forall|i: int| 0 <= i < base.len() implies base[i].0 != hex_byte(b) by {
                        if base[i].0 == hex_byte(b) {
                            if i == 0 {
                                lemma_hex_byte_injective(b, 0x0f);
                            } else if i == 1 {
                                lemma_hex_byte_injective(b, 0x10);
                            } else if i == 2 {
                                lemma_hex_byte_injective(b, 0x11);
                            } else {
                                lemma_hex_byte_injective(b, 0x12);
                            }
                        }
                    }
                } else {
                    if b == 0x0f {
                        assert(base[0].0 == hex_byte(b));
                    } else if b == 0x10 {
                        assert(base[1].0 == hex_byte(b));
                    } else if b == 0x11 {
                        assert(base[2].0 == hex_byte(b));
                    } else {
                        assert(base[3].0 == hex_byte(b));
                    }
                }
            }
            if !listed {
                let mut hex: Vec<char> = Vec::new();
                push_hex_byte(&mut hex, b);
                let label = input_label_chars(hex.as_slice());
                proof {
                    lemma_canonical_byte(b);
                }
                let ghost before = inputs@;
                inputs.push(InputSource { label: to_string(label.as_slice()), value: to_string(hex.as_slice()) });
                assert(inputs_view(inputs@) =~= inputs_view(before).push((hex_byte(b), input_label_spec(hex_byte(b)))));
            }
        }
    }
    inputs
}

/// A canonical value names its own byte again.
pub proof fn lemma_canonical_byte(b: u8)
    ensures
        hex_value_byte(hex_byte(b)) == Some(b),
        normalize_hex(hex_byte(b)) == Some(hex_byte(b)),
{
    let h = hex_byte(b);
    let hi = b as nat / 16;
    let lo = b as nat % 16;
    assert(hi < 16 && lo < 16);
    assert(is_ascii_hexdigit(lower_hex_char(hi)) && hex_digit_value(lower_hex_char(hi)) == hi);
    assert(is_ascii_hexdigit(lower_hex_char(lo)) && hex_digit_value(lower_hex_char(lo)) == lo);
    assert(!is_ws(h[0]) && !is_ws(h[3]));
    lemma_trim_start_at(h, 0);
    assert(h.subrange(0, 4) =~= h);
    lemma_trim_end_at(h, 4);
    assert(trim(h) == h);
    reveal_strlit("0x");
    reveal_strlit("0X");
    let d = seq![lower_hex_char(hi), lower_hex_char(lo)];
    assert(h.subrange(0, 2) =~= "0x"@);
    assert(starts_with(h, "0x"@));
    assert(h.subrange(2, 4) =~= d);
    assert(!starts_with(d, "0x"@)) by {
        if starts_with(d, "0x"@) {
            assert("0x"@[1] == 'x');
            assert(d.subrange(0, 2)[1] == d[1]);
            assert(d[1] == 'x');
        }
    }
    assert(trim_start_matches(d, "0x"@) == d);
    assert(trim_start_matches(h, "0x"@) == d);
    assert(!starts_with(d, "0X"@)) by {
        if starts_with(d, "0X"@) {
            assert("0X"@[1] == 'X');
            assert(d.subrange(0, 2)[1] == d[1]);
            assert(d[1] == 'X');
        }
    }
    assert(trim_start_matches(d, "0X"@) == d);
    assert(unsigned_body(d) == d);
    assert(d.drop_last() =~= seq![lower_hex_char(hi)]);
    assert(d.drop_last().drop_last() =~= Seq::<char>::empty());
    assert(radix_value(d.drop_last().drop_last(), 16) == 0);
    assert(d.drop_last().last() == lower_hex_char(hi));
    assert(radix_value(d.drop_last(), 16) == hi);
    assert(d.last() == lower_hex_char(lo));
    assert(radix_value(d, 16) == hi * 16 + lo);
    assert(all_hexdigits(d));
}

// ---------------------------------------------------------------------------
// Reading the current input from `ddcutil getvcp`
// ---------------------------------------------------------------------------

pub open spec fn is_value_char(c: char) -> bool {
    is_ascii_hexdigit(c) || c == 'x' || c == 'X'
}

/// The longest prefix of `s` made of hex digits, `x` and `X`.
pub open spec fn take_value_chars(s: Seq<char>) -> Seq<char>
    decreases s.len(),
{
    if s.len() > 0 && is_value_char(s[0]) {
        seq![s[0]] + take_value_chars(s.drop_first())
    } else {
        Seq::empty()
    }
}

/// The text that follows the first `m` in `s`: whitespace skipped, then the
/// run of hex digits, `x` and `X`.
pub open spec fn value_after_marker(s: Seq<char>, m: Seq<char>) -> Option<Seq<char>> {
    match find(s, m) {
        Some(i) => Some(take_value_chars(trim_start(s.subrange(i + m.len(), s.len() as int)))),
        None => None,
    }
}

/// The markers after which `ddcutil` prints the input value, in the order tried.
pub open spec fn input_markers() -> Seq<Seq<char>> {
    seq!["current value = "@, "sl="@, "SNC x"@, "SNC X"@]
}

/// The first marker whose value is a hex byte gives the input, canonicalised.
pub open spec fn getvcp_scan(s: Seq<char>, ms: Seq<Seq<char>>) -> Option<Seq<char>>
    decreases ms.len(),
{
    if ms.len() == 0 {
        None
    } else {
        match value_after_marker(s, ms[0]) {
            Some(v) => match normalize_hex(v) {
                Some(n) => Some(n),
                None => getvcp_scan(s, ms.drop_first()),
            },
            None => getvcp_scan(s, ms.drop_first()),
        }
    }
}

/// A value read as hexadecimal after trimming it and removing leading `0x` / `0X`.
pub open spec fn lenient_hex(v: Seq<char>) -> Option<Seq<char>> {
    match parse_hex_u8(trim_start_matches(trim_start_matches(trim(v), "0x"@), "0X"@)) {
        Some(b) => Some(hex_byte(b)),
        None => None,
    }
}

/// Like `getvcp_scan`, reading each value with `lenient_hex`.
pub open spec fn current_input_scan(s: Seq<char>, ms: Seq<Seq<char>>) -> Option<Seq<char>>
    decreases ms.len(),
{
    if ms.len() == 0 {
        None
    } else {
        match value_after_marker(s, ms[0]) {
            Some(v) => match lenient_hex(v) {
                Some(n) => Some(n),
                None => current_input_scan(s, ms.drop_first()),
            },
            None => current_input_scan(s, ms.drop_first()),
        }
    }
}

pub proof fn lemma_take_value_at(s: Seq<char>, k: int)
    requires
        0 <= k <= s.len(),
        forall|m: int| 0 <= m < k ==> is_value_char(#[trigger] s[m]),
        k == s.len() || !is_value_char(s[k]),
    ensures
        take_value_chars(s) == s.subrange(0, k),
    decreases k,
{
    if k == 0 {
        assert(s.subrange(0, 0) =~= Seq::<char>::empty());
    } else {
        let t = s.drop_first();
        assert forall|m: int| 0 <= m < k - 1 implies is_value_char(#[trigger] t[m]) by {
            assert(t[m] == s[m + 1]);
        }
        lemma_take_value_at(t, k - 1);
        assert(seq![s[0]] + t.subrange(0, k - 1) =~= s.subrange(0, k));
    }
}

/// The value text after marker `m`, if `m` occurs in `s`.
pub(crate) fn value_after_marker_exec(s: &[char], m: &[char]) -> (r: Option<Vec<char>>)
    ensures
        match r {
            Some(v) => value_after_marker(s@, m@) == Some(v@),
            None => value_after_marker(s@, m@) is None,
        },
{
    let len = s.len();
    let start = match find_chars(s, m) {
        Some(i) => i + m.len(),
        None => {
            return None;
        },
    };
    let ghost rest = s@.subrange(start as int, s@.len() as int);
    let n = s.len();
    let mut j = start;
    while j < n && is_whitespace(s[j])
        invariant
            n == s@.len(),
            start <= j <= n,
            forall|k: int| start <= k < j ==> is_ws(#[trigger] s@[k]),
        decreases n - j,
    {
        j += 1;
    }
    proof {
        assert forall|k: int| 0 <= k < j - start implies is_ws(#[trigger] rest[k]) by {
            assert(rest[k] == s@[k + start]);
        }
        lemma_trim_start_at(rest, j - start);
        assert(rest.subrange(j - start, rest.len() as int) =~= s@.subrange(j as int, n as int));
    }
    let mut k = j;
    while k < n && is_value_char_exec(s[k])
        invariant
            n == s@.len(),
            j <= k <= n,
            forall|q: int| j <= q < k ==> is_value_char(#[trigger] s@[q]),
        decreases n - k,
    {
        k += 1;
    }
    proof {
        let t = s@.subrange(j as int, n as int);
        assert forall|q: int| 0 <= q < k - j implies is_value_char(#[trigger] t[q]) by {
            assert(t[q] == s@[q + j]);
        }
        lemma_take_value_at(t, k - j);
        assert(t.subrange(0, k - j) =~= s@.subrange(j as int, k as int));
    }
    Some(copy_range(s, j, k))
}

fn is_value_char_exec(c: char) -> (b: bool)
    ensures
        b == is_value_char(c),
{
    is_hexdigit(c) || c == 'x' || c == 'X'
}

fn input_marker_list() -> (r: Vec<Vec<char>>)
    ensures
        seqs(r@) == input_markers(),
{
    let mut r: Vec<Vec<char>> = Vec::new();
    r.push(chars_of("current value = "));
    r.push(chars_of("sl="));
    r.push(chars_of("SNC x"));
    r.push(chars_of("SNC X"));
    assert(seqs(r@) =~= input_markers());
    r
}

/// A value read with `lenient_hex`.
pub fn lenient_hex_chars(v: &[char]) -> (r: Option<Vec<char>>)
    ensures
        match r {
            Some(x) => lenient_hex(v@) == Some(x@),
            None => lenient_hex(v@) is None,
        },
{
    proof {
        reveal_strlit("0x");
        reveal_strlit("0X");
    }
    let t = trim_chars(v);
    let a = trim_start_matches_str(t.as_slice(), "0x");
    let n = trim_start_matches_str(a.as_slice(), "0X");
    match parse_hex_u8_chars(n.as_slice()) {
        Some(b) => {
            let mut out: Vec<char> = Vec::new();
            push_hex_byte(&mut out, b);
            assert(out@ =~= hex_byte(b));
            Some(out)
        },
        None => None,
    }
}

/// Scans the input markers in order; `strict` selects `normalize_hex` over
/// `lenient_hex` for reading each value.
pub fn scan_input_value(s: &[char], strict: bool) -> (r: Option<Vec<char>>)
    ensures
        ({
            let want = if strict {
                getvcp_scan(s@, input_markers())
            } else {
                current_input_scan(s@, input_markers())
            };
            match r {
                Some(v) => want == Some(v@),
                None => want is None,
            }
        }),
{
    let markers = input_marker_list();
    let ghost ms = input_markers();
    assert(ms.subrange(0, ms.len() as int) =~= ms);
    let mut k: usize = 0;
    while k < markers.len()
        invariant
            seqs(markers@) == ms,
            ms == input_markers(),
            k <= markers@.len(),
            strict ==> getvcp_scan(s@, ms) == getvcp_scan(s@, ms.subrange(k as int, ms.len() as int)),
            !strict ==> current_input_scan(s@, ms) == current_input_scan(s@, ms.subrange(k as int, ms.len() as int)),
        decreases markers@.len() - k,
    {
        let ghost rest = ms.subrange(k as int, ms.len() as int);
        assert(rest[0] == markers@[k as int]@);
        assert(rest.drop_first() =~= ms.subrange(k + 1, ms.len() as int));
        if let Some(v) = value_after_marker_exec(s, markers[k].as_slice()) {
            let n = if strict { normalize_hex_chars(v.as_slice()) } else { lenient_hex_chars(v.as_slice()) };
            if n.is_some() {
                return n;
            }
        }
        k += 1;
    }
    None
}

/// The current input in a `ddcutil getvcp 60` reply, canonicalised as `0x..`.
pub fn parse_getvcp_input(output: &str) -> (r: Option<String>)
    ensures
        match r {
            Some(v) => getvcp_scan(output@, input_markers()) == Some(v@),
            None => getvcp_scan(output@, input_markers()) is None,
        },
{
    let s = chars_of(output);
    match scan_input_value(s.as_slice(), true) {
        Some(v) => Some(to_string(v.as_slice())),
        None => None,
    }
}

// ---------------------------------------------------------------------------
// Reading the input list from `ddcutil capabilities`
// ---------------------------------------------------------------------------

/// Where the capabilities reader stands after some lines.
pub struct CapsState {
    pub in_feature: bool,
    pub in_values: bool,
    pub stopped: bool,
    pub inputs: Seq<(Seq<char>, Seq<char>)>,
}

/// A `value: label` line of the input feature, as an input.
pub open spec fn caps_entry(t: Seq<char>) -> Option<(Seq<char>, Seq<char>)> {
    match split_once(t, ':') {
        Some((rv, rl)) => match normalize_hex(trim(rv)) {
            Some(v) => if trim(rl).len() == 0 {
                None
            } else {
                Some((v, replace_char(trim(rl), '-', " "@)))
            },
            None => None,
        },
        None => None,
    }
}

/// One line of `ddcutil capabilities` read in state `st`: the feature `60`
/// block opens, the next `Feature:` line ends reading, `Values` opens the
/// value list, and each value line there adds an input.
pub open spec fn caps_step(st: CapsState, line: Seq<char>) -> CapsState {
    let t = trim(line);
    if st.stopped {
        st
    } else if starts_with(t, "Feature: 60"@) || starts_with(t, "Feature: 0x60"@) {
        CapsState { in_feature: true, in_values: false, stopped: false, inputs: st.inputs }
    } else if st.in_feature && starts_with(t, "Feature:"@) {
        CapsState { in_feature: st.in_feature, in_values: st.in_values, stopped: true, inputs: st.inputs }
    } else if !st.in_feature {
        st
    } else if starts_with(t, "Values"@) {
        CapsState { in_feature: true, in_values: true, stopped: false, inputs: st.inputs }
    } else if !st.in_values {
        st
    } else {
        match caps_entry(t) {
            Some(e) => CapsState {
                in_feature: true,
                in_values: true,
                stopped: false,
                inputs: st.inputs.push(e),
            },
            None => st,
        }
    }
}

pub open spec fn caps_run(ls: Seq<Seq<char>>) -> CapsState
    decreases ls.len(),
{
    if ls.len() == 0 {
        CapsState { in_feature: false, in_values: false, stopped: false, inputs: Seq::empty() }
    } else {
        caps_step(caps_run(ls.drop_last()), ls.last())
    }
}

/// The inputs listed under feature `60` of a capabilities report.
pub open spec fn capabilities_inputs_spec(s: Seq<char>) -> Seq<(Seq<char>, Seq<char>)> {
    caps_run(lines(s)).inputs
}

fn caps_entry_exec(t: &[char]) -> (r: Option<InputSource>)
    ensures
        match r {
            Some(i) => caps_entry(t@) == Some(input_view(i)),
            None => caps_entry(t@) is None,
        },
{
    let (raw_value, raw_label) = match split_once_char(t, ':') {
        Some(p) => p,
        None => {
            return None;
        },
    };
    let tv = trim_chars(raw_value.as_slice());
    let value = match normalize_hex_chars(tv.as_slice()) {
        Some(v) => v,
        None => {
            return None;
        },
    };
    let label = trim_chars(raw_label.as_slice());
    if label.len() == 0 {
        return None;
    }
    let space = chars_of(" ");
    let shown = replace_char_chars(label.as_slice(), '-', space.as_slice());
    Some(InputSource { value: to_string(value.as_slice()), label: to_string(shown.as_slice()) })
}

/// The inputs listed under feature `60` of a `ddcutil capabilities` report.
pub fn parse_capabilities_inputs(output: &str) -> (r: Vec<InputSource>)
    ensures
        inputs_view(r@) == capabilities_inputs_spec(output@),
{
    let s = chars_of(output);
    let ls = split_lines(s.as_slice());
    let ghost lv = seqs(ls@);
    let mut in_feature = false;
    let mut in_values = false;
    let mut stopped = false;
    let mut inputs: Vec<InputSource> = Vec::new();
    let mut i: usize = 0;
    assert(lv.subrange(0, 0) =~= Seq::<Seq<char>>::empty());
    assert(inputs_view(inputs@) =~= Seq::<(Seq<char>, Seq<char>)>::empty());
    while i < ls.len()
        invariant
            lv == seqs(ls@),
            lv == lines(s@),
            s@ == output@,
            i <= ls@.len(),
            caps_run(lv.subrange(0, i as int)) == (CapsState {
                in_feature,
                in_values,
                stopped,
                inputs: inputs_view(inputs@),
            }),
        decreases ls@.len() - i,
    {
        assert(lv.subrange(0, i + 1).drop_last() =~= lv.subrange(0, i as int));
        assert(lv.subrange(0, i + 1).last() == ls@[i as int]@);
        let t = trim_chars(ls[i].as_slice());
        if stopped {
        } else if starts_with_str(t.as_slice(), "Feature: 60") || starts_with_str(t.as_slice(), "Feature: 0x60") {
            in_feature = true;
            in_values = false;
        } else if in_feature && starts_with_str(t.as_slice(), "Feature:") {
            stopped = true;
        } else if !in_feature {
        } else if starts_with_str(t.as_slice(), "Values") {
            in_values = true;
        } else if !in_values {
        } else {
            if let Some(e) = caps_entry_exec(t.as_slice()) {
                let ghost before = inputs@;
                let ghost ev = input_view(e);
                inputs.push(e);
                assert(inputs_view(inputs@) =~= inputs_view(before).push(ev));
            }
        }
        i += 1;
    }
    assert(lv.subrange(0, lv.len() as int) =~= lv);
    inputs
}

// ---------------------------------------------------------------------------
// Reading `ddcutil detect --brief`
// ---------------------------------------------------------------------------

/// The displays read so far, and the one being read.
pub struct DetectState {
    pub done: Seq<DetectedDisplay>,
    pub current: Option<DetectedDisplay>,
}

pub open spec fn detect_flush(st: DetectState) -> Seq<DetectedDisplay> {
    match st.current {
        Some(c) => st.done.push(c),
        None => st.done,
    }
}

/// The number in a `Display <n>` line.
pub open spec fn display_number_of(t: Seq<char>) -> Option<u32> {
    match strip_prefix(t, "Display "@) {
        Some(r) => parse_u32(trim(r)),
        None => None,
    }
}

/// A `Monitor: mfg:model:serial` summary read into `c`.
pub open spec fn with_summary(c: DetectedDisplay, summary: Seq<char>) -> DetectedDisplay {
    let parts = split_char(trim(summary), ':');
    DetectedDisplay {
        display_number: c.display_number,
        bus: c.bus,
        manufacturer: trim(parts[0]),
        model: if parts.len() > 1 { trim(parts[1]) } else { Seq::empty() },
        serial: if parts.len() > 2 { trim(parts[2]) } else { Seq::empty() },
    }
}

/// One line of `ddcutil detect --brief` read in state `st`: a blank line ends
/// the current display, `Display <n>` starts one, and `I2C bus:` and
/// `Monitor:` lines fill in the current one.
pub open spec fn detect_step(st: DetectState, line: Seq<char>) -> DetectState {
    let t = trim(line);
    if t.len() == 0 {
        DetectState { done: detect_flush(st), current: None }
    } else {
        match display_number_of(t) {
            Some(n) => DetectState {
                done: detect_flush(st),
                current: Some(
                    DetectedDisplay {
                        display_number: n,
                        bus: None,
                        manufacturer: Seq::empty(),
                        model: Seq::empty(),
                        serial: Seq::empty(),
                    },
                ),
            },
            None => match st.current {
                None => st,
                Some(c) => match strip_prefix(t, "I2C bus:"@) {
                    Some(b) => DetectState {
                        done: st.done,
                        current: Some(
                            DetectedDisplay {
                                display_number: c.display_number,
                                bus: Some(trim(b)),
                                manufacturer: c.manufacturer,
                                model: c.model,
                                serial: c.serial,
                            },
                        ),
                    },
                    None => match strip_prefix(t, "Monitor:"@) {
                        Some(m) => DetectState { done: st.done, current: Some(with_summary(c, m)) },
                        None => st,
                    },
                },
            },
        }
    }
}

pub open spec fn detect_run(ls: Seq<Seq<char>>) -> DetectState
    decreases ls.len(),
{
    if ls.len() == 0 {
        DetectState { done: Seq::empty(), current: None }
    } else {
        detect_step(detect_run(ls.drop_last()), ls.last())
    }
}

/// The displays of a `ddcutil detect --brief` report.
pub open spec fn ddc_detect_spec(s: Seq<char>) -> Seq<DetectedDisplay> {
    detect_flush(detect_run(lines(s)))
}

pub open spec fn detected_all(v: Seq<DiscoveredDdcMonitor>) -> Seq<DetectedDisplay> {
    v.map_values(|m: DiscoveredDdcMonitor| m.detected())
}

pub open spec fn detected_opt(o: Option<DiscoveredDdcMonitor>) -> Option<DetectedDisplay> {
    match o {
        Some(m) => Some(m.detected()),
        None => None,
    }
}

fn new_detected(n: u32) -> (r: DiscoveredDdcMonitor)
    ensures
        r.detected() == (DetectedDisplay {
            display_number: n,
            bus: None,
            manufacturer: Seq::empty(),
            model: Seq::empty(),
            serial: Seq::empty(),
        }),
        r.only_detected(),
{
    let r = DiscoveredDdcMonitor {
        display_number: n,
        bus: None,
        manufacturer: String::new(),
        model: String::new(),
        serial: String::new(),
        current_input: None,
        supported_inputs: Vec::new(),
        capabilities_known: false,
        input_switching_supported: false,
    };
    assert(r.detected().manufacturer =~= Seq::<char>::empty());
    r
}

fn display_number_exec(t: &[char]) -> (r: Option<u32>)
    ensures
        r == display_number_of(t@),
{
    match strip_prefix_str(t, "Display ") {
        Some(rest) => {
            let tr = trim_chars(rest.as_slice());
            parse_u32_chars(tr.as_slice())
        },
        None => None,
    }
}

fn trimmed_string(v: &[char]) -> (r: String)
    ensures
        r@ == trim(v@),
{
    let t = trim_chars(v);
    to_string(t.as_slice())
}

fn apply_summary(c: DiscoveredDdcMonitor, summary: &[char]) -> (r: DiscoveredDdcMonitor)
    requires
        c.only_detected(),
    ensures
        r.detected() == with_summary(c.detected(), summary@),
        r.only_detected(),
{
    let ts = trim_chars(summary);
    let parts = split_char_chars(ts.as_slice(), ':');
    let manufacturer = trimmed_string(parts[0].as_slice());
    let model = if parts.len() > 1 {
        trimmed_string(parts[1].as_slice())
    } else {
        String::new()
    };
    let serial = if parts.len() > 2 {
        trimmed_string(parts[2].as_slice())
    } else {
        String::new()
    };
    let r = DiscoveredDdcMonitor {
        display_number: c.display_number,
        bus: c.bus,
        manufacturer,
        model,
        serial,
        current_input: c.current_input,
        supported_inputs: c.supported_inputs,
        capabilities_known: c.capabilities_known,
        input_switching_supported: c.input_switching_supported,
    };
    assert(r.detected() =~= with_summary(c.detected(), summary@));
    r
}

/// The displays of a `ddcutil detect --brief` report, with their I2C bus and
/// `manufacturer:model:serial` summary.
pub fn parse_ddc_detect(output: &str) -> (r: Vec<DiscoveredDdcMonitor>)
    ensures
        detected_all(r@) == ddc_detect_spec(output@),
        forall|i: int| 0 <= i < r@.len() ==> (#[trigger] r@[i]).only_detected(),
{
    let s = chars_of(output);
    let ls = split_lines(s.as_slice());
    let ghost lv = seqs(ls@);
    let mut done: Vec<DiscoveredDdcMonitor> = Vec::new();
    let mut current: Option<DiscoveredDdcMonitor> = None;
    let mut i: usize = 0;
    assert(lv.subrange(0, 0) =~= Seq::<Seq<char>>::empty());
    assert(detected_all(done@) =~= Seq::<DetectedDisplay>::empty());
    while i < ls.len()
        invariant
            lv == seqs(ls@),
            lv == lines(s@),
            s@ == output@,
            i <= ls@.len(),
            detect_run(lv.subrange(0, i as int)) == (DetectState {
                done: detected_all(done@),
                current: detected_opt(current),
            }),
            forall|k: int| 0 <= k < done@.len() ==> (#[trigger] done@[k]).only_detected(),
            current matches Some(c) ==> c.only_detected(),
        decreases ls@.len() - i,
    {
        assert(lv.subrange(0, i + 1).drop_last() =~= lv.subrange(0, i as int));
        assert(lv.subrange(0, i + 1).last() == ls@[i as int]@);
        let t = trim_chars(ls[i].as_slice());
        let ghost st = DetectState { done: detected_all(done@), current: detected_opt(current) };
        if t.len() == 0 {
            if let Some(m) = current {
                let ghost before = done@;
                done.push(m);
                assert(detected_all(done@) =~= detected_all(before).push(m.detected()));
            }
            current = None;
        } else if let Some(n) = display_number_exec(t.as_slice()) {
            if let Some(m) = current {
                let ghost before = done@;
                done.push(m);
                assert(detected_all(done@) =~= detected_all(before).push(m.detected()));
            }
            current = Some(new_detected(n));
        } else {
            match current {
                None => {
                    current = None;
                },
                Some(c) => {
                    if let Some(bus) = strip_prefix_str(t.as_slice(), "I2C bus:") {
                        let b = trimmed_string(bus.as_slice());
                        let c2 = DiscoveredDdcMonitor {
                            display_number: c.display_number,
                            bus: Some(b),
                            manufacturer: c.manufacturer,
                            model: c.model,
                            serial: c.serial,
                            current_input: c.current_input,
                            supported_inputs: c.supported_inputs,
                            capabilities_known: c.capabilities_known,
                            input_switching_supported: c.input_switching_supported,
                        };
                        current = Some(c2);
                    } else if let Some(summary) = strip_prefix_str(t.as_slice(), "Monitor:") {
                        current = Some(apply_summary(c, summary.as_slice()));
                    } else {
                        current = Some(c);
                    }
                },
            }
        }
        i += 1;
    }
    assert(lv.subrange(0, lv.len() as int) =~= lv);
    if let Some(m) = current {
        let ghost before = done@;
        done.push(m);
        assert(detected_all(done@) =~= detected_all(before).push(m.detected()));
    }
    done
}

// ---------------------------------------------------------------------------
// Input lists
// ---------------------------------------------------------------------------

/// `s` with every input whose value appeared earlier removed.
pub open spec fn dedupe_spec(s: Seq<(Seq<char>, Seq<char>)>) -> Seq<(Seq<char>, Seq<char>)>
    decreases s.len(),
{
    if s.len() == 0 {
        s
    } else {
        let rest = dedupe_spec(s.drop_last());
        if exists|j: int| 0 <= j < s.len() - 1 && s[j].0 == s.last().0 {
            rest
        } else {
            rest.push(s.last())
        }
    }
}

/// Some input in `s` has value `v`.
pub open spec fn has_value(s: Seq<(Seq<char>, Seq<char>)>, v: Seq<char>) -> bool {
    exists|j: int| 0 <= j < s.len() && s[j].0 == v
}

pub proof fn lemma_has_value_push(s: Seq<(Seq<char>, Seq<char>)>, e: (Seq<char>, Seq<char>), v: Seq<char>)
    ensures
        has_value(s.push(e), v) <==> (has_value(s, v) || e.0 == v),
{
    if has_value(s.push(e), v) {
        let j = choose|j: int| 0 <= j < s.push(e).len() && s.push(e)[j].0 == v;
        if j < s.len() {
            assert(s[j].0 == v);
        }
    }
    if has_value(s, v) {
        let j = choose|j: int| 0 <= j < s.len() && s[j].0 == v;
        assert(s.push(e)[j].0 == v);
    }
    if e.0 == v {
        assert(s.push(e)[s.len() as int].0 == v);
    }
}

pub proof fn lemma_dedupe_values(s: Seq<(Seq<char>, Seq<char>)>, v: Seq<char>)
    ensures
        has_value(s, v) <==> has_value(dedupe_spec(s), v),
    decreases s.len(),
{
    if s.len() > 0 {
        let d = s.drop_last();
        lemma_dedupe_values(d, v);
        assert(d.push(s.last()) =~= s);
        lemma_has_value_push(d, s.last(), v);
        let rest = dedupe_spec(d);
        if exists|j: int| 0 <= j < s.len() - 1 && s[j].0 == s.last().0 {
            let k = choose|k: int| 0 <= k < s.len() - 1 && s[k].0 == s.last().0;
            assert(d[k].0 == s.last().0);
            assert(has_value(d, s.last().0));
        } else {
            lemma_has_value_push(rest, s.last(), v);
        }
    }
}

/// Dropping repeated values leaves each value once, and loses none.
pub proof fn law_dedupe(s: Seq<(Seq<char>, Seq<char>)>, v: Seq<char>)
    ensures
        forall|i: int, j: int| 0 <= i < j < dedupe_spec(s).len() ==> (#[trigger] dedupe_spec(s)[i]).0 != (#[trigger] dedupe_spec(s)[j]).0,
        has_value(s, v) <==> has_value(dedupe_spec(s), v),
    decreases s.len(),
{
    lemma_dedupe_values(s, v);
    if s.len() > 0 {
        let d = s.drop_last();
        law_dedupe(d, v);
        let rest = dedupe_spec(d);
        if !(exists|j: int| 0 <= j < s.len() - 1 && s[j].0 == s.last().0) {
            lemma_dedupe_values(d, s.last().0);
            assert(!has_value(d, s.last().0)) by {
                if has_value(d, s.last().0) {
                    let j = choose|j: int| 0 <= j < d.len() && d[j].0 == s.last().0;
                    assert(s[j].0 == s.last().0);
                }
            }
            let r = rest.push(s.last());
            assert forall|i: int, j: int| 0 <= i < j < r.len() implies (#[trigger] r[i]).0 != (#[trigger] r[j]).0 by {
                if j == r.len() - 1 {
                    if r[i].0 == r[j].0 {
                        assert(rest[i].0 == s.last().0);
                        assert(has_value(rest, s.last().0));
                    }
                } else {
                    assert(r[i] == rest[i] && r[j] == rest[j]);
                }
            }
        }
    }
}

/// The fallback choices always offer the current input, when it names one.
pub proof fn law_fallback_offers_current(current: Seq<char>)
    ensures
        normalize_hex(current) matches Some(v) ==> exists|i: int| 0 <= i < fallback_inputs_spec(Some(current)).len()
            && (#[trigger] fallback_inputs_spec(Some(current))[i]).0 == v,
{
    if let Some(v) = normalize_hex(current) {
        let base = seq![
            ("0x0f"@, "DisplayPort 1"@),
            ("0x10"@, "DisplayPort 2"@),
            ("0x11"@, "HDMI 1"@),
            ("0x12"@, "HDMI 2"@),
        ];
        let f = fallback_inputs_spec(Some(current));
        if forall|i: int| 0 <= i < base.len() ==> base[i].0 != v {
            assert(f[4].0 == v);
        } else {
            let i = choose|i: int| 0 <= i < base.len() && base[i].0 == v;
            assert(f[i].0 == v);
        }
    }
}

fn clone_input(i: &InputSource) -> (r: InputSource)
    ensures
        r == *i,
{
    InputSource { value: i.value.clone(), label: i.label.clone() }
}

/// The inputs with repeated values dropped, the first of each kept.
pub fn dedupe_inputs(inputs: Vec<InputSource>) -> (r: Vec<InputSource>)
    ensures
        inputs_view(r@) == dedupe_spec(inputs_view(inputs@)),
{
    let ghost all = inputs_view(inputs@);
    let mut deduped: Vec<InputSource> = Vec::new();
    let mut i: usize = 0;
    while i < inputs.len()
        invariant
            all == inputs_view(inputs@),
            i <= inputs@.len(),
            inputs_view(deduped@) == dedupe_spec(all.subrange(0, i as int)),
        decreases inputs@.len() - i,
    {
        let ghost pre = all.subrange(0, i as int);
        assert(all.subrange(0, i + 1).drop_last() =~= pre);
        assert(all.subrange(0, i + 1).last() == all[i as int]);
        let mut seen = false;
        let mut k: usize = 0;
        while k < deduped.len()
            invariant
                k <= deduped@.len(),
                i < inputs@.len(),
                !seen ==> forall|q: int| 0 <= q < k ==> deduped@[q].value@ != inputs@[i as int].value@,
                seen ==> exists|q: int| 0 <= q < deduped@.len() && deduped@[q].value@ == inputs@[i as int].value@,
            decreases deduped@.len() - k,
        {
            if deduped[k].value == inputs[i].value {
                seen = true;
            }
            k += 1;
        }
        proof {
            lemma_dedupe_values(pre, all[i as int].0);
            let d = inputs_view(deduped@);
            if seen {
                let q = choose|q: int| 0 <= q < deduped@.len() && deduped@[q].value@ == inputs@[i as int].value@;
                assert(d[q].0 == all[i as int].0);
                assert(has_value(d, all[i as int].0));
                let j = choose|j: int| 0 <= j < pre.len() && pre[j].0 == all[i as int].0;
                assert(all.subrange(0, i + 1)[j].0 == all.subrange(0, i + 1).last().0);
            } else {
                assert forall|q: int| 0 <= q < d.len() implies d[q].0 != all[i as int].0 by {
                    assert(deduped@[q].value@ != inputs@[i as int].value@);
                }
                assert(!has_value(d, all[i as int].0));
                assert(!has_value(pre, all[i as int].0));
                assert forall|j: int| 0 <= j < i implies (#[trigger] all.subrange(0, i + 1)[j]).0 != all.subrange(0, i + 1).last().0 by {
                    assert(pre[j] == all.subrange(0, i + 1)[j]);
                }
            }
        }
        if !seen {
            let c = clone_input(&inputs[i]);
            let ghost before = deduped@;
            deduped.push(c);
            assert(inputs_view(deduped@) =~= inputs_view(before).push(all[i as int]));
        }
        i += 1;
    }
    assert(all.subrange(0, all.len() as int) =~= all);
    deduped
}

// ---------------------------------------------------------------------------
// Monitors as values
// ---------------------------------------------------------------------------

/// What DDC/CI reports, as values.
pub struct DdcView {
    pub display_number: u32,
    pub current_input: Option<Seq<char>>,
    pub supported_inputs: Seq<(Seq<char>, Seq<char>)>,
    pub capabilities_known: bool,
    pub input_switching_supported: bool,
}

/// A monitor as values.
pub struct MonitorView {
    pub id: Seq<char>,
    pub display_name: Seq<char>,
    pub output_name: Seq<char>,
    pub connected: bool,
    pub active: bool,
    pub internal: bool,
    pub position: Option<(i32, i32)>,
    pub current_mode: Option<(u32, u32)>,
    pub ddc: Option<DdcView>,
}

pub open spec fn text_opt(o: Option<String>) -> Option<Seq<char>> {
    match o {
        Some(s) => Some(s@),
        None => None,
    }
}

impl View for DdcMonitorInfo {
    type V = DdcView;

    open spec fn view(&self) -> DdcView {
        DdcView {
            display_number: self.display_number,
            current_input: text_opt(self.current_input),
            supported_inputs: inputs_view(self.supported_inputs@),
            capabilities_known: self.capabilities_known,
            input_switching_supported: self.input_switching_supported,
        }
    }
}

impl View for MonitorInfo {
    type V = MonitorView;

    open spec fn view(&self) -> MonitorView {
        MonitorView {
            id: self.id@,
            display_name: self.display_name@,
            output_name: self.output_name@,
            connected: self.connected,
            active: self.active,
            internal: self.internal,
            position: self.position,
            current_mode: self.current_mode,
            ddc: match self.ddc {
                Some(d) => Some(d@),
                None => None,
            },
        }
    }
}

pub open spec fn monitors_view(v: Seq<MonitorInfo>) -> Seq<MonitorView> {
    v.map_values(|m: MonitorInfo| m@)
}

impl View for MonitorSnapshot {
    type V = Seq<MonitorView>;

    open spec fn view(&self) -> Seq<MonitorView> {
        monitors_view(self.monitors@)
    }
}

/// A copy of a list of inputs.
pub fn copy_inputs(v: &Vec<InputSource>) -> (r: Vec<InputSource>)
    ensures
        r@ == v@,
{
    let mut r: Vec<InputSource> = Vec::new();
    let mut i: usize = 0;
    while i < v.len()
        invariant
            i <= v@.len(),
            r@ == v@.subrange(0, i as int),
        decreases v@.len() - i,
    {
        r.push(clone_input(&v[i]));
        i += 1;
        assert(r@ =~= v@.subrange(0, i as int));
    }
    assert(r@ =~= v@);
    r
}

fn clone_text(o: &Option<String>) -> (r: Option<String>)
    ensures
        r == *o,
{
    match o {
        Some(s) => Some(s.clone()),
        None => None,
    }
}

impl DdcMonitorInfo {
    /// A copy of the DDC/CI information.
    pub fn duplicate(&self) -> (r: DdcMonitorInfo)
        ensures
            r@ == self@,
    {
        DdcMonitorInfo {
            display_number: self.display_number,
            current_input: clone_text(&self.current_input),
            supported_inputs: copy_inputs(&self.supported_inputs),
            capabilities_known: self.capabilities_known,
            input_switching_supported: self.input_switching_supported,
        }
    }
}

impl MonitorInfo {
    /// A copy of the monitor.
    pub fn duplicate(&self) -> (r: MonitorInfo)
        ensures
            r@ == self@,
    {
        MonitorInfo {
            id: self.id.clone(),
            display_name: self.display_name.clone(),
            output_name: self.output_name.clone(),
            connected: self.connected,
            active: self.active,
            internal: self.internal,
            position: self.position,
            current_mode: self.current_mode,
            ddc: match &self.ddc {
                Some(d) => Some(d.duplicate()),
                None => None,
            },
        }
    }
}

impl DiscoveredDdcMonitor {
    /// What the app keeps of a DDC/CI monitor.
    pub fn to_info(&self) -> (r: DdcMonitorInfo)
        ensures
            r.display_number == self.display_number,
            r.current_input == self.current_input,
            r.supported_inputs@ == self.supported_inputs@,
            r.capabilities_known == self.capabilities_known,
            r.input_switching_supported == self.input_switching_supported,
    {
        DdcMonitorInfo {
            display_number: self.display_number,
            current_input: clone_text(&self.current_input),
            supported_inputs: copy_inputs(&self.supported_inputs),
            capabilities_known: self.capabilities_known,
            input_switching_supported: self.input_switching_supported,
        }
    }
}

impl MonitorSnapshot {
    /// A copy of the snapshot.
    pub fn duplicate(&self) -> (r: MonitorSnapshot)
        ensures
            r@ == self@,
    {
        let mut monitors: Vec<MonitorInfo> = Vec::new();
        let mut i: usize = 0;
        while i < self.monitors.len()
            invariant
                i <= self.monitors@.len(),
                monitors_view(monitors@) == monitors_view(self.monitors@).subrange(0, i as int),
            decreases self.monitors@.len() - i,
        {
            let ghost before = monitors_view(monitors@);
            monitors.push(self.monitors[i].duplicate());
            assert(monitors_view(monitors@) =~= before.push(self.monitors@[i as int]@));
            assert(monitors_view(self.monitors@).subrange(0, i + 1) =~= monitors_view(self.monitors@).subrange(0, i as int).push(self.monitors@[i as int]@));
            i += 1;
        }
        assert(monitors_view(self.monitors@).subrange(0, self.monitors@.len() as int) =~= monitors_view(self.monitors@));
        MonitorSnapshot { monitors }
    }
}

} // verus!
