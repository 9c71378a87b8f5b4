//! Putting monitors together from the layout tool's outputs, DDC/CI and EDID.
use crate::display::{DisplayOutput, OutputView, outputs_view, CommandLine, lit};
use crate::monitor::{
    capabilities_inputs_spec, dedupe_inputs, dedupe_spec, fallback_input_choices,
    fallback_inputs_spec, getvcp_scan, input_markers, inputs_view, monitors_view,
    parse_capabilities_inputs, parse_getvcp_input, text_opt, DdcMonitorInfo, DdcView,
    DiscoveredDdcMonitor, MonitorInfo, MonitorSnapshot, MonitorView, INPUT_VCP_CODE,
};
use crate::text::{
    chars_of, dec, ends_with, ends_with_chars, eq_chars, lower, lower_chars, push_dec, push_str,
    to_string, trim, trim_chars, trim_end_char, trim_end_char_chars, trim_start_char,
    trim_start_char_chars, views,
};
use vstd::prelude::*;

verus! {

// ---------------------------------------------------------------------------
// Text order
// ---------------------------------------------------------------------------

/// `a <= b` in the order of `str::cmp`: lexicographic by character.
pub open spec fn text_le(a: Seq<char>, b: Seq<char>) -> bool
    decreases a.len(),
{
    if a.len() == 0 {
        true
    } else if b.len() == 0 {
        false
    } else if a[0] != b[0] {
        a[0] < b[0]
    } else {
        text_le(a.drop_first(), b.drop_first())
    }
}

pub proof fn lemma_text_le_total(a: Seq<char>, b: Seq<char>)
    ensures
        text_le(a, b) || text_le(b, a),
    decreases a.len(),
{
    if a.len() > 0 && b.len() > 0 && a[0] == b[0] {
        lemma_text_le_total(a.drop_first(), b.drop_first());
    }
}

pub proof fn lemma_text_le_trans(a: Seq<char>, b: Seq<char>, c: Seq<char>)
    requires
        text_le(a, b),
        text_le(b, c),
    ensures
        text_le(a, c),
    decreases a.len(),
{
    if a.len() > 0 && b.len() > 0 && c.len() > 0 && a[0] == b[0] && b[0] == c[0] {
        lemma_text_le_trans(a.drop_first(), b.drop_first(), c.drop_first());
    }
}

pub proof fn lemma_text_le_antisym(a: Seq<char>, b: Seq<char>)
    requires
        text_le(a, b),
        text_le(b, a),
    ensures
        a == b,
    decreases a.len(),
{
    if a.len() > 0 && b.len() > 0 {
        lemma_text_le_antisym(a.drop_first(), b.drop_first());
        assert(a =~= seq![a[0]] + a.drop_first());
        assert(b =~= seq![b[0]] + b.drop_first());
    } else if a.len() == 0 && b.len() > 0 {
    } else if a.len() > 0 {
    } else {
        assert(a =~= b);
    }
}

pub(crate) fn text_le_exec(a: &[char], b: &[char]) -> (r: bool)
    ensures
        r == text_le(a@, b@),
{
    let mut i: usize = 0;
    assert(a@.subrange(0, a@.len() as int) =~= a@);
    assert(b@.subrange(0, b@.len() as int) =~= b@);
    while i < a.len() && i < b.len() && a[i] == b[i]
        invariant
            i <= a@.len(),
            i <= b@.len(),
            text_le(a@, b@) == text_le(a@.subrange(i as int, a@.len() as int), b@.subrange(i as int, b@.len() as int)),
        decreases a@.len() - i,
    {
        assert(a@.subrange(i as int, a@.len() as int).drop_first() =~= a@.subrange(i + 1, a@.len() as int));
        assert(b@.subrange(i as int, b@.len() as int).drop_first() =~= b@.subrange(i + 1, b@.len() as int));
        i += 1;
    }
    if i == a.len() {
        true
    } else if i == b.len() {
        false
    } else {
        a[i] < b[i]
    }
}

/// Monitor `a` is listed no later than `b`: internal monitors first, then by
/// display name and output name, both descending.
pub open spec fn listed_before(a: MonitorView, b: MonitorView) -> bool {
    if a.internal != b.internal {
        a.internal
    } else if a.display_name != b.display_name {
        text_le(b.display_name, a.display_name)
    } else {
        text_le(b.output_name, a.output_name)
    }
}

pub proof fn lemma_listed_total(a: MonitorView, b: MonitorView)
    ensures
        listed_before(a, b) || listed_before(b, a),
{
    lemma_text_le_total(a.display_name, b.display_name);
    lemma_text_le_total(a.output_name, b.output_name);
}

pub proof fn lemma_listed_trans(a: MonitorView, b: MonitorView, c: MonitorView)
    requires
        listed_before(a, b),
        listed_before(b, c),
    ensures
        listed_before(a, c),
{
    if a.internal == b.internal && b.internal == c.internal {
        if a.display_name != b.display_name && b.display_name != c.display_name {
            lemma_text_le_trans(c.display_name, b.display_name, a.display_name);
            if a.display_name == c.display_name {
                lemma_text_le_antisym(a.display_name, b.display_name);
            }
        } else if a.display_name == b.display_name && b.display_name == c.display_name {
            lemma_text_le_trans(c.output_name, b.output_name, a.output_name);
        }
    }
}

pub open spec fn sorted_listing(v: Seq<MonitorView>) -> bool {
    forall|i: int, j: int| 0 <= i < j < v.len() ==> listed_before(#[trigger] v[i], #[trigger] v[j])
}

fn listed_before_exec(a: &MonitorInfo, b: &MonitorInfo) -> (r: bool)
    ensures
        r == listed_before(a@, b@),
{
    if a.internal != b.internal {
        return a.internal;
    }
    let an = chars_of(a.display_name.as_str());
    let bn = chars_of(b.display_name.as_str());
    if !eq_chars(an.as_slice(), bn.as_slice()) {
        return text_le_exec(bn.as_slice(), an.as_slice());
    }
    let ao = chars_of(a.output_name.as_str());
    let bo = chars_of(b.output_name.as_str());
    text_le_exec(bo.as_slice(), ao.as_slice())
}

/// Two monitors that the listing order does not tell apart.
pub open spec fn ties(a: MonitorView, b: MonitorView) -> bool {
    listed_before(a, b) && listed_before(b, a)
}

pub open spec fn tie_pred(m: MonitorView) -> spec_fn(MonitorView) -> bool {
    |x: MonitorView| ties(x, m)
}

/// The monitors of `v` that tie with `m`, in their order in `v`.
pub open spec fn tied_with(v: Seq<MonitorView>, m: MonitorView) -> Seq<MonitorView> {
    v.filter(tie_pred(m))
}

/// Filtering a sequence none of whose items passes gives nothing.
pub proof fn lemma_filter_none<A>(s: Seq<A>, pred: spec_fn(A) -> bool)
    requires
        forall|k: int| 0 <= k < s.len() ==> !pred(#[trigger] s[k]),
    ensures
        s.filter(pred) =~= Seq::<A>::empty(),
    decreases s.len(),
{
    reveal(Seq::filter);
    if s.len() > 0 {
        let d = s.drop_last();
        assert forall|k: int| 0 <= k < d.len() implies !pred(#[trigger] d[k]) by {
            assert(d[k] == s[k]);
        }
        lemma_filter_none(d, pred);
        assert(!pred(s[s.len() - 1]));
    }
}

/// Inserting `x` at `p`, where no later item passes `pred` if `x` does, adds
/// `x` at the end of what the filter keeps.
pub proof fn lemma_filter_insert<A>(o: Seq<A>, p: int, x: A, pred: spec_fn(A) -> bool)
    requires
        0 <= p <= o.len(),
        pred(x) ==> forall|k: int| p <= k < o.len() ==> !pred(#[trigger] o[k]),
    ensures
        o.insert(p, x).filter(pred) == o.filter(pred) + seq![x].filter(pred),
{
    let a = o.subrange(0, p);
    let b = o.subrange(p, o.len() as int);
    let one = seq![x];
    assert(o.insert(p, x) =~= (a + one) + b);
    assert(o =~= a + b);
    Seq::filter_distributes_over_add(a + one, b, pred);
    Seq::filter_distributes_over_add(a, one, pred);
    Seq::filter_distributes_over_add(a, b, pred);
    if pred(x) {
        assert forall|k: int| 0 <= k < b.len() implies !pred(#[trigger] b[k]) by {
            assert(b[k] == o[p + k]);
        }
        lemma_filter_none(b, pred);
        assert(o.insert(p, x).filter(pred) =~= o.filter(pred) + one.filter(pred));
    } else {
        assert forall|k: int| 0 <= k < one.len() implies !pred(#[trigger] one[k]) by {}
        lemma_filter_none(one, pred);
        assert(o.insert(p, x).filter(pred) =~= o.filter(pred) + one.filter(pred));
    }
}

/// The monitors in listing order: internal first, then by display name and
/// output name, descending; monitors that tie keep their order.
pub fn sort_monitors(monitors: Vec<MonitorInfo>) -> (r: Vec<MonitorInfo>)
    ensures
        sorted_listing(monitors_view(r@)),
        monitors_view(r@).to_multiset() == monitors_view(monitors@).to_multiset(),
        forall|m: MonitorView| #[trigger] tied_with(monitors_view(r@), m) == tied_with(monitors_view(monitors@), m),
{
    let ghost input = monitors_view(monitors@);
    let mut out: Vec<MonitorInfo> = Vec::new();
    let rest = monitors;
    broadcast use vstd::seq_lib::group_to_multiset_ensures;
    assert(monitors_view(out@) =~= Seq::<MonitorView>::empty());
    assert(input.subrange(0, 0) =~= Seq::<MonitorView>::empty());
    let n = rest.len();
    let mut i: usize = 0;
    while i < n
        invariant
            n == input.len(),
            rest@.len() == n,
            monitors_view(rest@) == input,
            i <= n,
            sorted_listing(monitors_view(out@)),
            monitors_view(out@).to_multiset() == input.subrange(0, i as int).to_multiset(),
            forall|m: MonitorView| #[trigger] tied_with(monitors_view(out@), m) == tied_with(input.subrange(0, i as int), m),
        decreases n - i,
    {
        let x = rest[i].duplicate();
        let ghost o = monitors_view(out@);
        let mut p: usize = 0;
        while p < out.len() && listed_before_exec(&out[p], &x)
            invariant
                o == monitors_view(out@),
                p <= o.len(),
                forall|k: int| 0 <= k < p ==> listed_before(#[trigger] o[k], x@),
            decreases o.len() - p,
        {
            p += 1;
        }
        proof {
            if p < o.len() {
                assert(!listed_before(o[p as int], x@));
                lemma_listed_total(o[p as int], x@);
            }
            assert forall|k: int| p <= k < o.len() implies listed_before(x@, #[trigger] o[k]) by {
                if k > p {
                    assert(listed_before(o[p as int], o[k]));
                    lemma_listed_total(o[p as int], x@);
                    lemma_listed_trans(x@, o[p as int], o[k]);
                }
            }
        }
        out.insert(p, x);
        proof {
            let o2 = monitors_view(out@);
            assert(o2 =~= o.insert(p as int, x@));
            assert forall|a: int, b: int| 0 <= a < b < o2.len() implies listed_before(#[trigger] o2[a], #[trigger] o2[b]) by {
                if a < p && b < p {
                } else if a < p && b == p {
                } else if a < p && b > p {
                    assert(o2[b] == o[b - 1]);
                } else if a == p {
                    assert(o2[b] == o[b - 1]);
                } else {
                    assert(o2[a] == o[a - 1]);
                    assert(o2[b] == o[b - 1]);
                }
            }
            vstd::seq_lib::to_multiset_insert(o, p as int, x@);
            assert(input.subrange(0, i + 1) =~= input.subrange(0, i as int).push(input[i as int]));
            assert(x@ == input[i as int]);
            vstd::seq_lib::to_multiset_build(input.subrange(0, i as int), input[i as int]);
            assert(o2.to_multiset() == o.to_multiset().insert(x@));
            assert(o2.to_multiset() == input.subrange(0, i + 1).to_multiset());
            assert forall|m: MonitorView| #[trigger] tied_with(o2, m) == tied_with(input.subrange(0, i + 1), m) by {
                if ties(x@, m) {
                    assert forall|k: int| p <= k < o.len() implies !(#[trigger] tie_pred(m)(o[k])) by {
                        lemma_listed_total(o[p as int], x@);
                        if ties(o[k], m) {
                            lemma_listed_trans(o[k], m, x@);
                            if k > p {
                                lemma_listed_trans(o[p as int], o[k], x@);
                            }
                        }
                    }
                }
                assert(tied_with(o, m) == tied_with(input.subrange(0, i as int), m));
                lemma_filter_insert(o, p as int, x@, tie_pred(m));
                assert(tied_with(o2, m) == tied_with(o, m) + seq![x@].filter(tie_pred(m)));
                Seq::filter_distributes_over_add(input.subrange(0, i as int), seq![x@], tie_pred(m));
                assert(input.subrange(0, i + 1) =~= input.subrange(0, i as int) + seq![x@]);
            }
        }
        i += 1;
    }
    assert(input.subrange(0, n as int) =~= input);
    out
}

// ---------------------------------------------------------------------------
// EDID
// ---------------------------------------------------------------------------

/// Names the text that `String::from_utf8_lossy` decodes from bytes.
pub uninterp spec fn lossy_utf8(bytes: Seq<u8>) -> Seq<char>;

pub open spec fn all_ascii(bytes: Seq<u8>) -> bool {
    forall|i: int| 0 <= i < bytes.len() ==> #[trigger] bytes[i] < 128
}

/// `String::from_utf8_lossy`: decodes UTF-8, with U+FFFD for invalid
/// sequences. The contract names the result, and states what the documentation
/// gives for ASCII input (valid UTF-8 decodes one character per byte); it does
/// not describe the decoding of other bytes.
#[verifier::external_body]
fn decode_lossy(bytes: &[u8]) -> (r: String)
    ensures
        r@ == lossy_utf8(bytes@),
        all_ascii(bytes@) ==> r@ == bytes@.map_values(|b: u8| b as char),
{
    String::from_utf8_lossy(bytes).into_owned()
}

/// What a display's EDID says about it.
#[derive(Debug)]
pub struct OutputSysfsInfo {
    pub manufacturer: Option<String>,
    pub model: Option<String>,
    pub serial: Option<String>,
}

/// The manufacturer, model and serial as text.
pub open spec fn sysfs_view(s: OutputSysfsInfo) -> (Option<Seq<char>>, Option<Seq<char>>, Option<Seq<char>>) {
    (text_opt(s.manufacturer), text_opt(s.model), text_opt(s.serial))
}

/// The letter of a 5-bit EDID manufacturer code (1 is `A`).
pub open spec fn pnp_letter(k: nat) -> char {
    ((k + 64) as u8) as char
}

/// The three-letter manufacturer id in bytes 8 and 9 of an EDID.
pub open spec fn edid_manufacturer(e: Seq<u8>) -> Option<Seq<char>> {
    if e.len() < 10 {
        None
    } else {
        let raw = e[8] as nat * 256 + e[9] as nat;
        Some(seq![pnp_letter((raw / 1024) % 32), pnp_letter((raw / 32) % 32), pnp_letter(raw % 32)])
    }
}

/// The three-letter manufacturer id of an EDID.
pub fn parse_edid_manufacturer(edid: &[u8]) -> (r: Option<String>)
    ensures
        match r {
            Some(s) => edid_manufacturer(edid@) == Some(s@),
            None => edid_manufacturer(edid@) is None,
        },
{
    if edid.len() < 10 {
        return None;
    }
    let raw: u32 = (edid[8] as u32) * 256 + (edid[9] as u32);
    let a = ((((raw / 1024) % 32) + 64) as u8) as char;
    let b = ((((raw / 32) % 32) + 64) as u8) as char;
    let c = (((raw % 32) + 64) as u8) as char;
    let mut v: Vec<char> = Vec::new();
    v.push(a);
    v.push(b);
    v.push(c);
    assert(v@ =~= seq![a, b, c]);
    Some(to_string(v.as_slice()))
}

/// The serial number in bytes 12 to 15 of an EDID (little endian), unless 0.
pub open spec fn edid_numeric_serial(e: Seq<u8>) -> Option<u32> {
    if e.len() < 16 {
        None
    } else {
        let v = e[12] as nat + e[13] as nat * 256 + e[14] as nat * 65536 + e[15] as nat * 16777216;
        if v == 0 {
            None
        } else {
            Some(v as u32)
        }
    }
}

/// The numeric serial of an EDID, unless it is 0.
pub fn parse_edid_numeric_serial(edid: &[u8]) -> (r: Option<u32>)
    ensures
        r == edid_numeric_serial(edid@),
{
    if edid.len() < 16 {
        return None;
    }
    let v: u32 = (edid[12] as u32) + (edid[13] as u32) * 256 + (edid[14] as u32) * 65536 + (edid[15] as u32) * 16777216;
    if v == 0 {
        None
    } else {
        Some(v)
    }
}

/// The text of one 18-byte descriptor: bytes 5 to 17 decoded, NULs and
/// surrounding whitespace removed.
pub open spec fn descriptor_text(e: Seq<u8>, start: int) -> Seq<char> {
    descriptor_text_spec(lossy_utf8(e.subrange(start + 5, start + 18)))
}

/// The text of a descriptor once decoded: NUL padding removed at both ends,
/// whitespace trimmed, and a trailing line feed removed.
pub open spec fn descriptor_text_spec(raw: Seq<char>) -> Seq<char> {
    trim_end_char(trim(trim_end_char(trim_start_char(raw, '\0'), '\0')), '\n')
}

/// The text of a decoded descriptor: NUL padding removed at both ends,
/// whitespace trimmed, and a trailing line feed removed.
pub fn descriptor_text_of(raw: &str) -> (r: String)
    ensures
        r@ == descriptor_text_spec(raw@),
{
    let rv = chars_of(raw);
    let a = trim_start_char_chars(rv.as_slice(), '\0');
    let b = trim_end_char_chars(a.as_slice(), '\0');
    let c = trim_chars(b.as_slice());
    let text = trim_end_char_chars(c.as_slice(), '\n');
    to_string(text.as_slice())
}

/// The first non-empty text descriptor of the given type, from descriptor `k` on.
pub open spec fn descriptor_from(e: Seq<u8>, t: u8, k: int) -> Option<Seq<char>>
    decreases 4 - k,
{
    if k < 0 || k >= 4 {
        None
    } else {
        let start = 54 + 18 * k;
        if e[start] == 0 && e[start + 1] == 0 && e[start + 2] == 0 && e[start + 3] == t && descriptor_text(e, start).len() > 0 {
            Some(descriptor_text(e, start))
        } else {
            descriptor_from(e, t, k + 1)
        }
    }
}

/// The first non-empty text descriptor of the given type (`0xfc` name, `0xff` serial).
pub open spec fn edid_text_descriptor(e: Seq<u8>, t: u8) -> Option<Seq<char>> {
    if e.len() < 126 {
        None
    } else {
        descriptor_from(e, t, 0)
    }
}

/// The first non-empty text descriptor of the given type in an EDID.
pub fn parse_edid_text_descriptor(edid: &[u8], descriptor_type: u8) -> (r: Option<String>)
    ensures
        match r {
            Some(s) => edid_text_descriptor(edid@, descriptor_type) == Some(s@),
            None => edid_text_descriptor(edid@, descriptor_type) is None,
        },
{
    if edid.len() < 126 {
        return None;
    }
    let mut k: usize = 0;
    while k < 4
        invariant
            edid@.len() >= 126,
            k <= 4,
            edid_text_descriptor(edid@, descriptor_type) == descriptor_from(edid@, descriptor_type, k as int),
        decreases 4 - k,
    {
        let start = 54 + 18 * k;
        if edid[start] == 0 && edid[start + 1] == 0 && edid[start + 2] == 0 && edid[start + 3] == descriptor_type {
            let mut bytes: Vec<u8> = Vec::new();
            let mut j = start + 5;
            while j < start + 18
                invariant
                    start <= 108,
                    start + 18 <= edid@.len(),
                    start + 5 <= j <= start + 18,
                    bytes@ == edid@.subrange(start + 5, j as int),
                decreases start + 18 - j,
            {
                bytes.push(edid[j]);
                j += 1;
                assert(bytes@ =~= edid@.subrange(start + 5, j as int));
            }
            let raw = decode_lossy(bytes.as_slice());
            let text = descriptor_text_of(raw.as_str());
            if text.unicode_len() > 0 {
                return Some(text);
            }
        }
        k += 1;
    }
    None
}

/// The EDID's manufacturer, model name and serial (text serial, else the
/// numeric one in decimal).
pub open spec fn sysfs_info_spec(e: Seq<u8>) -> (Option<Seq<char>>, Option<Seq<char>>, Option<Seq<char>>) {
    (
        edid_manufacturer(e),
        edid_text_descriptor(e, 0xfc),
        match edid_text_descriptor(e, 0xff) {
            Some(s) => Some(s),
            None => match edid_numeric_serial(e) {
                Some(n) => Some(dec(n as nat)),
                None => None,
            },
        },
    )
}

/// What an EDID says about its display.
pub fn parse_output_sysfs_info(edid: &[u8]) -> (r: OutputSysfsInfo)
    ensures
        sysfs_view(r) == sysfs_info_spec(edid@),
{
    let manufacturer = parse_edid_manufacturer(edid);
    let model = parse_edid_text_descriptor(edid, 0xfc);
    let serial = match parse_edid_text_descriptor(edid, 0xff) {
        Some(s) => Some(s),
        None => match parse_edid_numeric_serial(edid) {
            Some(n) => {
                let mut v: Vec<char> = Vec::new();
                push_dec(&mut v, n as u64);
                assert(v@ =~= dec(n as nat));
                Some(to_string(v.as_slice()))
            },
            None => None,
        },
    };
    OutputSysfsInfo { manufacturer, model, serial }
}

// ---------------------------------------------------------------------------
// Matching DDC/CI monitors to outputs
// ---------------------------------------------------------------------------

/// A key part: trimmed and lower-cased.
pub open spec fn key_part(v: Seq<char>) -> Seq<char> {
    lower(trim(v))
}

/// A key part, trimmed and lower-cased.
pub fn normalize_key_part(value: &str) -> (r: String)
    ensures
        r@ == key_part(value@),
{
    let v = chars_of(value);
    let t = trim_chars(v.as_slice());
    let l = lower_chars(t.as_slice());
    to_string(l.as_slice())
}

pub open spec fn key3(a: Seq<char>, b: Seq<char>, c: Seq<char>) -> Seq<char> {
    a + ":"@ + b + ":"@ + c
}

pub open spec fn key2(a: Seq<char>, b: Seq<char>) -> Seq<char> {
    a + ":"@ + b
}

/// The keys a DDC/CI monitor can be found by: `mfg:model:serial` when all
/// three are known, and `mfg:model` when those two are.
pub open spec fn ddc_keys(m: DiscoveredDdcMonitor) -> Seq<Seq<char>> {
    let a = key_part(m.manufacturer@);
    let b = key_part(m.model@);
    let c = key_part(m.serial@);
    let full = if a.len() > 0 && b.len() > 0 && c.len() > 0 { seq![key3(a, b, c)] } else { Seq::empty() };
    if a.len() > 0 && b.len() > 0 {
        full.push(key2(a, b))
    } else {
        full
    }
}

/// The keys an output's EDID gives.
pub open spec fn sysfs_keys(s: (Option<Seq<char>>, Option<Seq<char>>, Option<Seq<char>>)) -> Seq<Seq<char>> {
    let full = match s {
        (Some(a), Some(b), Some(c)) => seq![key3(key_part(a), key_part(b), key_part(c))],
        _ => Seq::empty(),
    };
    match s {
        (Some(a), Some(b), _) => full.push(key2(key_part(a), key_part(b))),
        _ => full,
    }
}

fn key_text(a: &String, b: &String, c: Option<&String>) -> (r: Vec<char>)
    ensures
        match c {
            Some(c) => r@ == key3(key_part(a@), key_part(b@), key_part(c@)),
            None => r@ == key2(key_part(a@), key_part(b@)),
        },
{
    let ka = normalize_key_part(a.as_str());
    let kb = normalize_key_part(b.as_str());
    let mut v = chars_of(ka.as_str());
    push_str(&mut v, ":");
    push_str(&mut v, kb.as_str());
    if let Some(c) = c {
        let kc = normalize_key_part(c.as_str());
        push_str(&mut v, ":");
        push_str(&mut v, kc.as_str());
        assert(v@ =~= key3(key_part(a@), key_part(b@), key_part(c@)));
    } else {
        assert(v@ =~= key2(key_part(a@), key_part(b@)));
    }
    v
}

/// The keys a DDC/CI monitor can be found by.
pub fn ddc_match_keys(monitor: &DiscoveredDdcMonitor) -> (r: Vec<String>)
    ensures
        views(r@) == ddc_keys(*monitor),
{
    let a = normalize_key_part(monitor.manufacturer.as_str());
    let b = normalize_key_part(monitor.model.as_str());
    let c = normalize_key_part(monitor.serial.as_str());
    let mut keys: Vec<String> = Vec::new();
    if a.as_str().unicode_len() > 0 && b.as_str().unicode_len() > 0 && c.as_str().unicode_len() > 0 {
        let k = key_text(&monitor.manufacturer, &monitor.model, Some(&monitor.serial));
        keys.push(to_string(k.as_slice()));
    }
    if a.as_str().unicode_len() > 0 && b.as_str().unicode_len() > 0 {
        let k = key_text(&monitor.manufacturer, &monitor.model, None);
        keys.push(to_string(k.as_slice()));
    }
    assert(views(keys@) =~= ddc_keys(*monitor));
    keys
}

fn sysfs_key_list(s: &OutputSysfsInfo) -> (r: Vec<Vec<char>>)
    ensures
        crate::text::seqs(r@) == sysfs_keys(sysfs_view(*s)),
{
    let mut keys: Vec<Vec<char>> = Vec::new();
    match (&s.manufacturer, &s.model, &s.serial) {
        (Some(a), Some(b), Some(c)) => keys.push(key_text(a, b, Some(c))),
        _ => {},
    }
    match (&s.manufacturer, &s.model) {
        (Some(a), Some(b)) => keys.push(key_text(a, b, None)),
        _ => {},
    }
    assert(crate::text::seqs(keys@) =~= sysfs_keys(sysfs_view(*s)));
    keys
}

/// The DDC/CI monitors (by index) that a key finds, in order.
pub open spec fn key_matches(ddc: Seq<DiscoveredDdcMonitor>, key: Seq<char>) -> Seq<int>
    decreases ddc.len(),
{
    if ddc.len() == 0 {
        Seq::empty()
    } else {
        let rest = key_matches(ddc.drop_last(), key);
        if ddc_keys(ddc.last()).contains(key) {
            rest.push(ddc.len() - 1)
        } else {
            rest
        }
    }
}

/// An optional index, as an integer.
pub open spec fn opt_index(r: Option<usize>) -> Option<int> {
    match r {
        Some(i) => Some(i as int),
        None => None,
    }
}

/// The first of the matches whose I2C bus path ends with the output's name.
pub open spec fn first_bus_match(ddc: Seq<DiscoveredDdcMonitor>, ms: Seq<int>, name: Seq<char>) -> Option<int>
    decreases ms.len(),
{
    if ms.len() == 0 {
        None
    } else if ddc[ms[0]].bus matches Some(b) && ends_with(b@, name) {
        Some(ms[0])
    } else {
        first_bus_match(ddc, ms.drop_first(), name)
    }
}

/// The DDC/CI monitor the keys find for an output: the first key with a
/// single match, or with a match on the I2C bus of the output.
pub open spec fn match_by_keys(ddc: Seq<DiscoveredDdcMonitor>, keys: Seq<Seq<char>>, name: Seq<char>) -> Option<int>
    decreases keys.len(),
{
    if keys.len() == 0 {
        None
    } else {
        let ms = key_matches(ddc, keys[0]);
        if ms.len() == 1 {
            Some(ms[0])
        } else {
            match first_bus_match(ddc, ms, name) {
                Some(i) => Some(i),
                None => match_by_keys(ddc, keys.drop_first(), name),
            }
        }
    }
}

/// The DDC/CI monitor of an output, found through the output's EDID.
pub open spec fn ddc_match_spec(ddc: Seq<DiscoveredDdcMonitor>, sysfs: Option<(Option<Seq<char>>, Option<Seq<char>>, Option<Seq<char>>)>, name: Seq<char>) -> Option<int> {
    match sysfs {
        Some(s) => match_by_keys(ddc, sysfs_keys(s), name),
        None => None,
    }
}

fn key_matches_exec(ddc: &[DiscoveredDdcMonitor], key: &[char]) -> (r: Vec<usize>)
    ensures
        r@.map_values(|i: usize| i as int) == key_matches(ddc@, key@),
        forall|k: int| 0 <= k < r@.len() ==> r@[k] < ddc@.len(),
{
    let mut r: Vec<usize> = Vec::new();
    let mut i: usize = 0;
    assert(ddc@.subrange(0, 0) =~= Seq::<DiscoveredDdcMonitor>::empty());
    assert(r@.map_values(|i: usize| i as int) =~= Seq::<int>::empty());
    while i < ddc.len()
        invariant
            i <= ddc@.len(),
            r@.map_values(|i: usize| i as int) == key_matches(ddc@.subrange(0, i as int), key@),
            forall|k: int| 0 <= k < r@.len() ==> r@[k] < i,
        decreases ddc@.len() - i,
    {
        assert(ddc@.subrange(0, i + 1).drop_last() =~= ddc@.subrange(0, i as int));
        assert(ddc@.subrange(0, i + 1).last() == ddc@[i as int]);
        let keys = ddc_match_keys(&ddc[i]);
        let mut found = false;
        let mut k: usize = 0;
        while k < keys.len()
            invariant
                k <= keys@.len(),
                found == exists|q: int| 0 <= q < k && keys@[q]@ == key@,
            decreases keys@.len() - k,
        {
            let kv = chars_of(keys[k].as_str());
            if eq_chars(kv.as_slice(), key) {
                found = true;
            }
            k += 1;
        }
        proof {
            if found {
                let q = choose|q: int| 0 <= q < keys@.len() && keys@[q]@ == key@;
                assert(views(keys@)[q] == key@);
            } else {
                assert forall|q: int| 0 <= q < views(keys@).len() implies views(keys@)[q] != key@ by {
                    assert(keys@[q]@ != key@);
                }
            }
        }
        if found {
            let ghost before = r@;
            r.push(i);
            assert(r@.map_values(|i: usize| i as int) =~= before.map_values(|i: usize| i as int).push(i as int));
        }
        i += 1;
    }
    assert(ddc@.subrange(0, ddc@.len() as int) =~= ddc@);
    r
}

/// The DDC/CI monitor (by index) of an output, found through its EDID's keys.
pub fn match_ddc_monitor(output_name: &str, sysfs: Option<&OutputSysfsInfo>, ddc: &[DiscoveredDdcMonitor]) -> (r: Option<usize>)
    ensures
        opt_index(r) == ddc_match_spec(ddc@, match sysfs {
            Some(s) => Some(sysfs_view(*s)),
            None => None,
        }, output_name@),
        r matches Some(i) ==> i < ddc@.len(),
{
    let s = match sysfs {
        Some(s) => s,
        None => {
            return None;
        },
    };
    let keys = sysfs_key_list(s);
    let ghost ks = crate::text::seqs(keys@);
    let name = chars_of(output_name);
    let mut k: usize = 0;
    assert(ks.subrange(0, ks.len() as int) =~= ks);
    while k < keys.len()
        invariant
            ks == crate::text::seqs(keys@),
            ks == sysfs_keys(sysfs_view(*s)),
            sysfs == Some(s),
            name@ == output_name@,
            k <= keys@.len(),
            match_by_keys(ddc@, ks, output_name@) == match_by_keys(ddc@, ks.subrange(k as int, ks.len() as int), output_name@),
        decreases keys@.len() - k,
    {
        let ghost rest = ks.subrange(k as int, ks.len() as int);
        assert(rest[0] == keys@[k as int]@);
        assert(rest.drop_first() =~= ks.subrange(k + 1, ks.len() as int));
        let ms = key_matches_exec(ddc, keys[k].as_slice());
        let ghost msi = ms@.map_values(|i: usize| i as int);
        assert(key_matches(ddc@, rest[0]) == msi);
        if ms.len() == 1 {
            assert(msi[0] == ms@[0] as int);
            return Some(ms[0]);
        }
        let mut q: usize = 0;
        assert(msi.subrange(0, msi.len() as int) =~= msi);
        while q < ms.len()
            invariant
                msi == ms@.map_values(|i: usize| i as int),
                forall|t: int| 0 <= t < ms@.len() ==> ms@[t] < ddc@.len(),
                q <= ms@.len(),
                first_bus_match(ddc@, msi, output_name@) == first_bus_match(ddc@, msi.subrange(q as int, msi.len() as int), output_name@),
                name@ == output_name@,
                msi.len() != 1,
                key_matches(ddc@, rest[0]) == msi,
                rest.len() > 0,
                match_by_keys(ddc@, ks, output_name@) == match_by_keys(ddc@, rest, output_name@),
                ks == sysfs_keys(sysfs_view(*s)),
                sysfs == Some(s),
            decreases ms@.len() - q,
        {
            let ghost mrest = msi.subrange(q as int, msi.len() as int);
            assert(mrest[0] == ms@[q as int] as int);
            assert(mrest.drop_first() =~= msi.subrange(q + 1, msi.len() as int));
            let m = &ddc[ms[q]];
            let hit = match &m.bus {
                Some(b) => {
                    let bv = chars_of(b.as_str());
                    ends_with_chars(bv.as_slice(), name.as_slice())
                },
                None => false,
            };
            if hit {
                assert(first_bus_match(ddc@, mrest, output_name@) == Some(mrest[0]));
                return Some(ms[q]);
            }
            q += 1;
        }
        k += 1;
    }
    None
}

/// The only DDC/CI monitor, when exactly one external output is connected and
/// exactly one DDC/CI monitor was found.
pub open spec fn single_match_spec(v: Seq<OutputView>, ddc_count: nat) -> Option<int> {
    if v.filter(|o: OutputView| o.connected && !o.internal).len() == 1 && ddc_count == 1 {
        Some(0)
    } else {
        None
    }
}

/// The only DDC/CI monitor, when the only connected external output must be it.
pub fn single_external_match(outputs: &[DisplayOutput], ddc_monitors: &[DiscoveredDdcMonitor]) -> (r: Option<usize>)
    ensures
        opt_index(r) == single_match_spec(outputs_view(outputs@), ddc_monitors@.len()),
{
    let ghost v = outputs_view(outputs@);
    let mut count: usize = 0;
    let mut i: usize = 0;
    reveal(Seq::filter);
    assert(v.subrange(0, 0).filter(|o: OutputView| o.connected && !o.internal) =~= Seq::<OutputView>::empty());
    while i < outputs.len()
        invariant
            v == outputs_view(outputs@),
            i <= v.len(),
            count == v.subrange(0, i as int).filter(|o: OutputView| o.connected && !o.internal).len(),
            count <= i,
        decreases v.len() - i,
    {
        reveal(Seq::filter);
        assert(v.subrange(0, i + 1).drop_last() =~= v.subrange(0, i as int));
        assert(v.subrange(0, i + 1).last() == outputs@[i as int]@);
        if outputs[i].connected && !outputs[i].internal {
            count += 1;
        }
        i += 1;
    }
    assert(v.subrange(0, v.len() as int) =~= v);
    if count == 1 && ddc_monitors.len() == 1 {
        Some(0)
    } else {
        None
    }
}


// ---------------------------------------------------------------------------
// Monitor ids, labels and the snapshot
// ---------------------------------------------------------------------------

/// The EDID facts of each output that has them, by output name.
pub open spec fn sysfs_list_view(list: Seq<(String, OutputSysfsInfo)>) -> Seq<(Seq<char>, (Option<Seq<char>>, Option<Seq<char>>, Option<Seq<char>>))> {
    list.map_values(|p: (String, OutputSysfsInfo)| (p.0@, sysfs_view(p.1)))
}

/// The EDID facts listed for an output name (the last entry for it).
pub open spec fn sysfs_lookup(
    list: Seq<(Seq<char>, (Option<Seq<char>>, Option<Seq<char>>, Option<Seq<char>>))>,
    name: Seq<char>,
) -> Option<(Option<Seq<char>>, Option<Seq<char>>, Option<Seq<char>>)>
    decreases list.len(),
{
    if list.len() == 0 {
        None
    } else if list.last().0 == name {
        Some(list.last().1)
    } else {
        sysfs_lookup(list.drop_last(), name)
    }
}

/// A monitor's stable id: `internal:<output>` for a built-in panel, the EDID's
/// `mfg:model:serial` when all three are known, else `output:<output>`.
pub open spec fn monitor_id_spec(o: OutputView, s: Option<(Option<Seq<char>>, Option<Seq<char>>, Option<Seq<char>>)>) -> Seq<char> {
    if o.internal {
        "internal:"@ + o.name
    } else {
        match s {
            Some((Some(a), Some(b), Some(c))) => key3(key_part(a), key_part(b), key_part(c)),
            _ => "output:"@ + o.name,
        }
    }
}

/// `<text> (<output>)`.
pub open spec fn with_output(text: Seq<char>, name: Seq<char>) -> Seq<char> {
    text + " ("@ + name + ")"@
}

/// A monitor's label: the built-in panel, else the EDID model name, else the
/// DDC/CI model name, each with the output's name; else the output's name.
pub open spec fn output_label_spec(
    o: OutputView,
    s: Option<(Option<Seq<char>>, Option<Seq<char>>, Option<Seq<char>>)>,
    d: Option<DiscoveredDdcMonitor>,
) -> Seq<char> {
    if o.internal {
        with_output("Built-in display"@, o.name)
    } else {
        match s {
            Some((_, Some(m), _)) => with_output(m, o.name),
            _ => match d {
                Some(d) if d.model@.len() > 0 => with_output(d.model@, o.name),
                _ => o.name,
            },
        }
    }
}

/// The stable id of the monitor on an output.
pub fn monitor_id_for_output(output: &DisplayOutput, sysfs: Option<&OutputSysfsInfo>) -> (r: String)
    ensures
        r@ == monitor_id_spec(output@, match sysfs {
            Some(s) => Some(sysfs_view(*s)),
            None => None,
        }),
{
    if output.internal {
        let mut v = chars_of("internal:");
        push_str(&mut v, output.name.as_str());
        return to_string(v.as_slice());
    }
    if let Some(s) = sysfs {
        match (&s.manufacturer, &s.model, &s.serial) {
            (Some(a), Some(b), Some(c)) => {
                let k = key_text(a, b, Some(c));
                return to_string(k.as_slice());
            },
            _ => {},
        }
    }
    let mut v = chars_of("output:");
    push_str(&mut v, output.name.as_str());
    to_string(v.as_slice())
}

fn with_output_exec(text: &str, name: &str) -> (r: String)
    ensures
        r@ == with_output(text@, name@),
{
    let mut v = chars_of(text);
    push_str(&mut v, " (");
    push_str(&mut v, name);
    push_str(&mut v, ")");
    assert(v@ =~= with_output(text@, name@));
    to_string(v.as_slice())
}

/// The label of the monitor on an output.
pub fn output_label(output: &DisplayOutput, sysfs: Option<&OutputSysfsInfo>, ddc: Option<&DiscoveredDdcMonitor>) -> (r: String)
    ensures
        r@ == output_label_spec(
            output@,
            match sysfs {
                Some(s) => Some(sysfs_view(*s)),
                None => None,
            },
            match ddc {
                Some(d) => Some(*d),
                None => None,
            },
        ),
{
    if output.internal {
        return with_output_exec("Built-in display", output.name.as_str());
    }
    if let Some(s) = sysfs {
        if let Some(m) = &s.model {
            return with_output_exec(m.as_str(), output.name.as_str());
        }
    }
    if let Some(d) = ddc {
        if d.model.as_str().unicode_len() > 0 {
            return with_output_exec(d.model.as_str(), output.name.as_str());
        }
    }
    output.name.clone()
}


/// What DDC/CI tells of a monitor, as the app keeps it.
pub open spec fn ddc_info_view(m: DiscoveredDdcMonitor) -> DdcView {
    DdcView {
        display_number: m.display_number,
        current_input: text_opt(m.current_input),
        supported_inputs: inputs_view(m.supported_inputs@),
        capabilities_known: m.capabilities_known,
        input_switching_supported: m.input_switching_supported,
    }
}

/// The DDC/CI monitor (by index) of an output: none for a built-in panel; the
/// one its EDID finds; else the only one, when this is the only external output.
pub open spec fn matched_ddc(
    o: OutputView,
    s: Option<(Option<Seq<char>>, Option<Seq<char>>, Option<Seq<char>>)>,
    ddc: Seq<DiscoveredDdcMonitor>,
    single: Option<int>,
) -> Option<int> {
    if o.internal {
        None
    } else {
        match ddc_match_spec(ddc, s, o.name) {
            Some(i) => Some(i),
            None => single,
        }
    }
}

/// The monitor on an output.
pub open spec fn monitor_spec(
    o: OutputView,
    s: Option<(Option<Seq<char>>, Option<Seq<char>>, Option<Seq<char>>)>,
    ddc: Seq<DiscoveredDdcMonitor>,
    single: Option<int>,
) -> MonitorView {
    let m = matched_ddc(o, s, ddc, single);
    MonitorView {
        id: monitor_id_spec(o, s),
        display_name: output_label_spec(o, s, match m {
            Some(i) => Some(ddc[i]),
            None => None,
        }),
        output_name: o.name,
        connected: o.connected,
        active: o.connected && o.current_mode is Some,
        internal: o.internal,
        position: o.position,
        current_mode: o.current_mode,
        ddc: match m {
            Some(i) => Some(ddc_info_view(ddc[i])),
            None => None,
        },
    }
}

/// The monitor of each output, in the outputs' order.
pub open spec fn snapshot_spec(
    outs: Seq<OutputView>,
    list: Seq<(Seq<char>, (Option<Seq<char>>, Option<Seq<char>>, Option<Seq<char>>))>,
    ddc: Seq<DiscoveredDdcMonitor>,
) -> Seq<MonitorView> {
    outs.map_values(|o: OutputView| monitor_spec(o, sysfs_lookup(list, o.name), ddc, single_match_spec(outs, ddc.len())))
}

/// The monitor shows output `o`: it has its name and connection, and is
/// active exactly when `o` is connected and has a current mode.
pub open spec fn shows_output(m: MonitorView, o: OutputView) -> bool {
    &&& m.output_name == o.name
    &&& m.connected == o.connected
    &&& m.active == (o.connected && o.current_mode is Some)
}

/// The monitor shows one of the outputs.
pub open spec fn shows_some_output(m: MonitorView, outs: Seq<OutputView>) -> bool {
    exists|k: int| 0 <= k < outs.len() && shows_output(m, #[trigger] outs[k])
}

/// A discovered monitor is active exactly when its output is connected and
/// has a current mode: every monitor of a snapshot whose monitors are those
/// of the outputs (in any order) comes from an output of the same name, with
/// the same connection and exactly that activity.
pub proof fn law_monitor_activity(
    outs: Seq<OutputView>,
    list: Seq<(Seq<char>, (Option<Seq<char>>, Option<Seq<char>>, Option<Seq<char>>))>,
    ddc: Seq<DiscoveredDdcMonitor>,
    r: Seq<MonitorView>,
)
    requires
        r.to_multiset() == snapshot_spec(outs, list, ddc).to_multiset(),
    ensures
        forall|k: int| 0 <= k < outs.len() ==> {
            let m = #[trigger] snapshot_spec(outs, list, ddc)[k];
            &&& m.output_name == outs[k].name
            &&& m.connected == outs[k].connected
            &&& m.active == (outs[k].connected && outs[k].current_mode is Some)
        },
        forall|i: int| 0 <= i < r.len() ==> #[trigger] shows_some_output(r[i], outs),
{
    broadcast use vstd::seq_lib::to_multiset_contains;
    let snap = snapshot_spec(outs, list, ddc);
    assert forall|i: int| 0 <= i < r.len() implies #[trigger] shows_some_output(r[i], outs) by {
        assert(r.contains(r[i]));
        assert(r.to_multiset().count(r[i]) > 0);
        assert(snap.contains(r[i]));
        let k = choose|k: int| 0 <= k < snap.len() && snap[k] == r[i];
        assert(snap[k].output_name == outs[k].name);
        assert(shows_output(r[i], outs[k]));
    }
}

fn lookup_sysfs<'a>(list: &'a [(String, OutputSysfsInfo)], name: &String) -> (r: Option<&'a OutputSysfsInfo>)
    ensures
        match r {
            Some(s) => sysfs_lookup(sysfs_list_view(list@), name@) == Some(sysfs_view(*s)),
            None => sysfs_lookup(sysfs_list_view(list@), name@) is None,
        },
{
    let ghost lv = sysfs_list_view(list@);
    let mut i: usize = list.len();
    assert(lv.subrange(0, lv.len() as int) =~= lv);
    while i > 0
        invariant
            lv == sysfs_list_view(list@),
            i <= list@.len(),
            sysfs_lookup(lv, name@) == sysfs_lookup(lv.subrange(0, i as int), name@),
        decreases i,
    {
        let ghost w = lv.subrange(0, i as int);
        assert(w.last() == lv[i - 1]);
        assert(w.drop_last() =~= lv.subrange(0, i - 1));
        if list[i - 1].0 == *name {
            return Some(&list[i - 1].1);
        }
        i -= 1;
    }
    None
}

fn monitor_for_output(
    output: &DisplayOutput,
    sysfs: Option<&OutputSysfsInfo>,
    ddc: &[DiscoveredDdcMonitor],
    single: Option<usize>,
) -> (r: MonitorInfo)
    requires
        single matches Some(i) ==> i < ddc@.len(),
    ensures
        r@ == monitor_spec(output@, match sysfs {
            Some(s) => Some(sysfs_view(*s)),
            None => None,
        }, ddc@, opt_index(single)),
{
    let matched: Option<usize> = if output.internal {
        None
    } else {
        match match_ddc_monitor(output.name.as_str(), sysfs, ddc) {
            Some(i) => Some(i),
            None => single,
        }
    };
    let id = monitor_id_for_output(output, sysfs);
    let display_name = match matched {
        Some(i) => output_label(output, sysfs, Some(&ddc[i])),
        None => output_label(output, sysfs, None),
    };
    let info = match matched {
        Some(i) => Some(ddc[i].to_info()),
        None => None,
    };
    MonitorInfo {
        id,
        display_name,
        output_name: output.name.clone(),
        connected: output.connected,
        active: output.connected && output.current_mode.is_some(),
        internal: output.internal,
        position: output.position,
        current_mode: output.current_mode,
        ddc: info,
    }
}

/// The monitors of a layout: one per output, with its stable id, label and
/// matched DDC/CI monitor, in listing order (monitors that tie keep the order of
/// their outputs). `sysfs` pairs output names with
/// what their EDID says; `ddc_monitors` are the DDC/CI monitors found.
pub fn discover_monitors(
    outputs: &[DisplayOutput],
    sysfs: &[(String, OutputSysfsInfo)],
    ddc_monitors: &[DiscoveredDdcMonitor],
) -> (r: MonitorSnapshot)
    ensures
        sorted_listing(r@),
        r@.to_multiset() == snapshot_spec(outputs_view(outputs@), sysfs_list_view(sysfs@), ddc_monitors@).to_multiset(),
        forall|m: MonitorView| #[trigger] tied_with(r@, m) == tied_with(snapshot_spec(outputs_view(outputs@), sysfs_list_view(sysfs@), ddc_monitors@), m),
{
    let ghost outs = outputs_view(outputs@);
    let ghost want = snapshot_spec(outs, sysfs_list_view(sysfs@), ddc_monitors@);
    let single = single_external_match(outputs, ddc_monitors);
    let mut monitors: Vec<MonitorInfo> = Vec::new();
    let mut i: usize = 0;
    while i < outputs.len()
        invariant
            outs == outputs_view(outputs@),
            want == snapshot_spec(outs, sysfs_list_view(sysfs@), ddc_monitors@),
            opt_index(single) == single_match_spec(outs, ddc_monitors@.len()),
            single matches Some(k) ==> k < ddc_monitors@.len(),
            i <= outputs@.len(),
            monitors_view(monitors@) == want.subrange(0, i as int),
        decreases outputs@.len() - i,
    {
        let s = lookup_sysfs(sysfs, &outputs[i].name);
        let m = monitor_for_output(&outputs[i], s, ddc_monitors, single);
        proof {
            assert(outs[i as int] == outputs@[i as int]@);
            assert(sysfs_lookup(sysfs_list_view(sysfs@), outs[i as int].name) == match s {
                Some(s) => Some(sysfs_view(*s)),
                None => None,
            });
            assert(want[i as int] == m@);
        }
        let ghost before = monitors_view(monitors@);
        monitors.push(m);
        assert(monitors_view(monitors@) =~= before.push(want[i as int]));
        assert(want.subrange(0, i + 1) =~= want.subrange(0, i as int).push(want[i as int]));
        i += 1;
    }
    assert(want.subrange(0, outputs@.len() as int) =~= want);
    let sorted = sort_monitors(monitors);
    MonitorSnapshot { monitors: sorted }
}

// ---------------------------------------------------------------------------
// DDC/CI queries
// ---------------------------------------------------------------------------

/// The input a `getvcp` report names, when there is a report.
pub open spec fn reported_input(report: Option<Seq<char>>) -> Option<Seq<char>> {
    match report {
        Some(t) => getvcp_scan(t, input_markers()),
        None => None,
    }
}

/// The inputs a capabilities report lists, when there is a report.
pub open spec fn reported_inputs(report: Option<Seq<char>>) -> Seq<(Seq<char>, Seq<char>)> {
    match report {
        Some(t) => capabilities_inputs_spec(t),
        None => Seq::empty(),
    }
}

/// Whether the capabilities are known after a capabilities report.
pub open spec fn enriched_known(m: DiscoveredDdcMonitor, caps: Option<Seq<char>>) -> bool {
    if reported_inputs(caps).len() > 0 {
        true
    } else {
        m.capabilities_known
    }
}

/// The supported inputs after the reports: the capabilities' inputs without
/// repeated values; else those known before; else the common fallback choices.
pub open spec fn enriched_inputs(m: DiscoveredDdcMonitor, getvcp: Option<Seq<char>>, caps: Option<Seq<char>>) -> Seq<(Seq<char>, Seq<char>)> {
    let listed = if reported_inputs(caps).len() > 0 {
        dedupe_spec(reported_inputs(caps))
    } else {
        inputs_view(m.supported_inputs@)
    };
    if listed.len() == 0 {
        fallback_inputs_spec(reported_input(getvcp))
    } else {
        listed
    }
}

/// An optional text, as characters.
pub open spec fn opt_str(o: Option<&str>) -> Option<Seq<char>> {
    match o {
        Some(t) => Some(t@),
        None => None,
    }
}

/// A DDC/CI monitor with what its `getvcp` and capabilities reports say (either
/// may be missing, when the query failed): its current input, whether input
/// switching works (the current input could be read), and its inputs.
pub fn enrich_ddc_monitor(monitor: DiscoveredDdcMonitor, getvcp_output: Option<&str>, capabilities_output: Option<&str>) -> (r: DiscoveredDdcMonitor)
    ensures
        r.detected() == monitor.detected(),
        text_opt(r.current_input) == reported_input(opt_str(getvcp_output)),
        r.input_switching_supported == (r.current_input is Some),
        r.capabilities_known == enriched_known(monitor, opt_str(capabilities_output)),
        inputs_view(r.supported_inputs@) == enriched_inputs(monitor, opt_str(getvcp_output), opt_str(capabilities_output)),
{
    let mut monitor = monitor;
    let ghost before = monitor;
    monitor.current_input = match getvcp_output {
        Some(t) => parse_getvcp_input(t),
        None => None,
    };
    monitor.input_switching_supported = monitor.current_input.is_some();
    if let Some(t) = capabilities_output {
        let inputs = parse_capabilities_inputs(t);
        if inputs.len() > 0 {
            monitor.capabilities_known = true;
            monitor.supported_inputs = dedupe_inputs(inputs);
        }
    }
    if monitor.supported_inputs.len() == 0 {
        let fallback = match &monitor.current_input {
            Some(c) => fallback_input_choices(Some(c.as_str())),
            None => fallback_input_choices(None),
        };
        monitor.supported_inputs = fallback;
    }
    monitor
}

fn display_args(display_number: u32, rest: &[&str]) -> (r: Vec<String>)
    ensures
        views(r@) == seq!["--display"@, dec(display_number as nat)] + rest@.map_values(|t: &str| t@),
{
    let mut args: Vec<String> = Vec::new();
    args.push(lit("--display"));
    let mut d: Vec<char> = Vec::new();
    push_dec(&mut d, display_number as u64);
    args.push(to_string(d.as_slice()));
    assert(views(args@) =~= seq!["--display"@, dec(display_number as nat)]);
    let mut i: usize = 0;
    while i < rest.len()
        invariant
            i <= rest@.len(),
            views(args@) == seq!["--display"@, dec(display_number as nat)] + rest@.subrange(0, i as int).map_values(|t: &str| t@),
        decreases rest@.len() - i,
    {
        let ghost before = views(args@);
        let ghost head = seq!["--display"@, dec(display_number as nat)];
        args.push(lit(rest[i]));
        assert(views(args@) =~= before.push(rest@[i as int]@));
        assert(rest@.subrange(0, i + 1).map_values(|t: &str| t@) =~= rest@.subrange(0, i as int).map_values(|t: &str| t@).push(rest@[i as int]@));
        assert(views(args@) =~= head + rest@.subrange(0, i + 1).map_values(|t: &str| t@));
        i += 1;
    }
    assert(rest@.subrange(0, rest@.len() as int) =~= rest@);
    args
}

/// `ddcutil detect --brief`: lists the DDC/CI monitors.
pub fn detect_command() -> (r: CommandLine)
    ensures
        r.program@ == "ddcutil"@,
        views(r.args@) == seq!["detect"@, "--brief"@],
{
    let mut args: Vec<String> = Vec::new();
    args.push(lit("detect"));
    args.push(lit("--brief"));
    assert(views(args@) =~= seq!["detect"@, "--brief"@]);
    CommandLine { program: lit("ddcutil"), args }
}

/// `ddcutil --display <n> getvcp 60 --brief`: reads a monitor's input.
pub fn getvcp_input_command(display_number: u32) -> (r: CommandLine)
    ensures
        r.program@ == "ddcutil"@,
        views(r.args@) == seq!["--display"@, dec(display_number as nat), "getvcp"@, "60"@, "--brief"@],
{
    let rest: [&str; 3] = ["getvcp", INPUT_VCP_CODE, "--brief"];
    let args = display_args(display_number, rest.as_slice());
    assert(views(args@) =~= seq!["--display"@, dec(display_number as nat), "getvcp"@, "60"@, "--brief"@]);
    CommandLine { program: lit("ddcutil"), args }
}

/// `ddcutil --display <n> capabilities`: lists what a monitor supports.
pub fn capabilities_command(display_number: u32) -> (r: CommandLine)
    ensures
        r.program@ == "ddcutil"@,
        views(r.args@) == seq!["--display"@, dec(display_number as nat), "capabilities"@],
{
    let rest: [&str; 1] = ["capabilities"];
    let args = display_args(display_number, rest.as_slice());
    assert(views(args@) =~= seq!["--display"@, dec(display_number as nat), "capabilities"@]);
    CommandLine { program: lit("ddcutil"), args }
}

/// The command that switches a monitor to an input:
/// `ddcutil --display <n> setvcp 60 <value>`.
pub fn set_input_for_monitor(display_number: u32, value: &str) -> (r: CommandLine)
    ensures
        r.program@ == "ddcutil"@,
        views(r.args@) == seq!["--display"@, dec(display_number as nat), "setvcp"@, "60"@, value@],
{
    let rest: [&str; 3] = ["setvcp", INPUT_VCP_CODE, value];
    let args = display_args(display_number, rest.as_slice());
    assert(views(args@) =~= seq!["--display"@, dec(display_number as nat), "setvcp"@, "60"@, value@]);
    CommandLine { program: lit("ddcutil"), args }
}

} // verus!
