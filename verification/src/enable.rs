//! Turning outputs back on: which outputs to wait for, where each one goes,
//! and the `kscreen-doctor` / `xrandr` commands that do it.
use crate::app::{layout_view, layouts_view};
use crate::discovery::{lemma_filter_insert, lemma_text_le_antisym, lemma_text_le_total, lemma_text_le_trans, text_le, text_le_exec};
use crate::display::{
    find_output, first_named, has_named, is_first_named, ks_arg, ks_position, lit, normalize_stacked_primary_position,
    outputs_view, stacked_position, stacking_fits, stacking_in_range, xy_text,
    CommandLine, DisplayOutput, OutputLayout, OutputView,
};
use crate::text::{chars_of, dec_int, join, join_strings, push_all, push_dec_signed, push_str, to_string, views};
use vstd::prelude::*;

verus! {

// ---------------------------------------------------------------------------
// Which outputs to wait for
// ---------------------------------------------------------------------------

/// The names of the layouts other than the primary display, in order.
pub open spec fn requested_spec(primary: Seq<char>, ls: Seq<(Seq<char>, Option<(i32, i32)>, Option<(u32, u32)>)>) -> Seq<Seq<char>>
    decreases ls.len(),
{
    if ls.len() == 0 {
        Seq::empty()
    } else {
        let rest = requested_spec(primary, ls.drop_last());
        if ls.last().0 != primary {
            rest.push(ls.last().0)
        } else {
            rest
        }
    }
}

/// The outputs to turn on besides the primary display.
pub fn requested_targets(primary_output: &str, outputs_to_enable: &[OutputLayout]) -> (r: Vec<String>)
    ensures
        views(r@) == requested_spec(primary_output@, layouts_view(outputs_to_enable@)),
{
    let ghost ls = layouts_view(outputs_to_enable@);
    let p = String::from_str(primary_output);
    let mut r: Vec<String> = Vec::new();
    let mut i: usize = 0;
    assert(ls.subrange(0, 0) =~= Seq::<(Seq<char>, Option<(i32, i32)>, Option<(u32, u32)>)>::empty());
    while i < outputs_to_enable.len()
        invariant
            ls == layouts_view(outputs_to_enable@),
            p@ == primary_output@,
            i <= ls.len(),
            views(r@) == requested_spec(primary_output@, ls.subrange(0, i as int)),
        decreases ls.len() - i,
    {
        let ghost w = ls.subrange(0, i + 1);
        assert(w.drop_last() =~= ls.subrange(0, i as int));
        assert(w.last() == layout_view(outputs_to_enable@[i as int]));
        if !(outputs_to_enable[i].name == p) {
            let ghost before = views(r@);
            r.push(outputs_to_enable[i].name.clone());
            assert(views(r@) =~= before.push(outputs_to_enable@[i as int].name@));
        }
        i += 1;
    }
    assert(ls.subrange(0, ls.len() as int) =~= ls);
    r
}

/// Every requested name is among the outputs.
pub open spec fn all_present(v: Seq<OutputView>, names: Seq<Seq<char>>) -> bool {
    forall|k: int| 0 <= k < names.len() ==> has_named(v, #[trigger] names[k])
}

/// The first output of each requested name.
pub open spec fn resolved_spec(v: Seq<OutputView>, names: Seq<Seq<char>>) -> Seq<OutputView> {
    names.map_values(|n: Seq<char>| v[first_named(v, n)])
}

/// One look at the outputs while waiting for the requested ones: nothing to
/// wait for when nothing is requested; else the requested outputs, in request
/// order, once the primary display and every requested output are present;
/// else `None` (look again later).
pub fn resolve_targets(primary_output: &str, requested: &[String], outputs: &[DisplayOutput]) -> (r: Option<Vec<DisplayOutput>>)
    ensures
        requested@.len() == 0 ==> (r matches Some(t) && t@.len() == 0),
        requested@.len() > 0 ==> match r {
            Some(t) => {
                &&& has_named(outputs_view(outputs@), primary_output@)
                &&& all_present(outputs_view(outputs@), views(requested@))
                &&& outputs_view(t@) == resolved_spec(outputs_view(outputs@), views(requested@))
            },
            None => !has_named(outputs_view(outputs@), primary_output@) || !all_present(outputs_view(outputs@), views(requested@)),
        },
{
    let ghost v = outputs_view(outputs@);
    let ghost names = views(requested@);
    if requested.len() == 0 {
        return Some(Vec::new());
    }
    match find_output(outputs, primary_output) {
        Some(_) => {},
        None => {
            return None;
        },
    }
    let mut t: Vec<DisplayOutput> = Vec::new();
    let mut i: usize = 0;
    while i < requested.len()
        invariant
            v == outputs_view(outputs@),
            names == views(requested@),
            i <= names.len(),
            forall|k: int| 0 <= k < i ==> has_named(v, #[trigger] names[k]),
            outputs_view(t@) == resolved_spec(v, names).subrange(0, i as int),
        decreases names.len() - i,
    {
        match find_output(outputs, requested[i].as_str()) {
            Some(o) => {
                proof {
                    let j = choose|j: int| is_first_named(v, requested@[i as int]@, j) && o == outputs@[j];
                    let f = first_named(v, names[i as int]);
                    assert(is_first_named(v, names[i as int], j));
                    assert(is_first_named(v, names[i as int], f));
                    if j < f {
                        assert(v[j].name == names[i as int]);
                    } else if f < j {
                        assert(v[f].name == names[i as int]);
                    }
                    assert(has_named(v, names[i as int]));
                }
                let ghost before = outputs_view(t@);
                t.push(o);
                assert(outputs_view(t@) =~= before.push(resolved_spec(v, names)[i as int]));
                assert(resolved_spec(v, names).subrange(0, i + 1) =~= resolved_spec(v, names).subrange(0, i as int).push(resolved_spec(v, names)[i as int]));
            },
            None => {
                assert(names[i as int] == requested@[i as int]@);
                assert(!has_named(v, names[i as int]));
                assert(!all_present(v, names));
                return None;
            },
        }
        i += 1;
    }
    proof {
        let j = first_named(v, primary_output@);
        assert(has_named(v, primary_output@));
    }
    assert(resolved_spec(v, names).subrange(0, names.len() as int) =~= resolved_spec(v, names));
    Some(t)
}

/// The requested names that are not among the outputs, in order.
pub open spec fn missing_spec(names: Seq<Seq<char>>, v: Seq<OutputView>) -> Seq<Seq<char>>
    decreases names.len(),
{
    if names.len() == 0 {
        Seq::empty()
    } else {
        let rest = missing_spec(names.drop_last(), v);
        if has_named(v, names.last()) {
            rest
        } else {
            rest.push(names.last())
        }
    }
}

/// The error when the requested outputs did not all come back in time.
pub open spec fn missing_error_spec(names: Seq<Seq<char>>, v: Seq<OutputView>) -> Seq<char> {
    let missing = missing_spec(names, v);
    if missing.len() == 0 {
        "Requested outputs never became available for re-enabling."@
    } else {
        "Requested outputs did not reappear in time: "@ + join(missing, ", "@)
    }
}

/// The error when waiting for the requested outputs ran out, given the outputs
/// seen last.
pub fn missing_targets_error(requested: &[String], last_seen: &[DisplayOutput]) -> (r: String)
    ensures
        r@ == missing_error_spec(views(requested@), outputs_view(last_seen@)),
{
    let ghost names = views(requested@);
    let ghost v = outputs_view(last_seen@);
    let mut missing: Vec<String> = Vec::new();
    let mut i: usize = 0;
    assert(names.subrange(0, 0) =~= Seq::<Seq<char>>::empty());
    while i < requested.len()
        invariant
            names == views(requested@),
            v == outputs_view(last_seen@),
            i <= names.len(),
            views(missing@) == missing_spec(names.subrange(0, i as int), v),
        decreases names.len() - i,
    {
        let ghost w = names.subrange(0, i + 1);
        assert(w.drop_last() =~= names.subrange(0, i as int));
        assert(w.last() == names[i as int]);
        let found = find_output(last_seen, requested[i].as_str());
        match found {
            Some(o) => {
                proof {
                    let j = choose|j: int| is_first_named(v, requested@[i as int]@, j) && o == last_seen@[j];
                    assert(v[j].name == names[i as int]);
                }
            },
            None => {
                let ghost before = views(missing@);
                missing.push(requested[i].clone());
                assert(views(missing@) =~= before.push(names[i as int]));
            },
        }
        i += 1;
    }
    assert(names.subrange(0, names.len() as int) =~= names);
    if missing.len() == 0 {
        lit("Requested outputs never became available for re-enabling.")
    } else {
        let mut e = chars_of("Requested outputs did not reappear in time: ");
        let j = join_strings(&missing, ", ");
        push_all(&mut e, j.as_slice());
        to_string(e.as_slice())
    }
}


// ---------------------------------------------------------------------------
// Where the outputs go
// ---------------------------------------------------------------------------

/// The last layout given for an output name.
pub open spec fn last_layout(
    ls: Seq<(Seq<char>, Option<(i32, i32)>, Option<(u32, u32)>)>,
    name: Seq<char>,
) -> Option<(Seq<char>, Option<(i32, i32)>, Option<(u32, u32)>)>
    decreases ls.len(),
{
    if ls.len() == 0 {
        None
    } else if ls.last().0 == name {
        Some(ls.last())
    } else {
        last_layout(ls.drop_last(), name)
    }
}

/// An output with the position and size of its last layout, where that layout
/// gives them.
pub open spec fn with_layout(o: OutputView, ls: Seq<(Seq<char>, Option<(i32, i32)>, Option<(u32, u32)>)>) -> OutputView {
    match last_layout(ls, o.name) {
        Some(l) => OutputView {
            id: o.id,
            name: o.name,
            connected: o.connected,
            internal: o.internal,
            current_mode: match l.2 {
                Some(size) => Some(size),
                None => o.current_mode,
            },
            position: match l.1 {
                Some(p) => Some(p),
                None => o.position,
            },
            scale: o.scale,
        },
        None => o,
    }
}

pub open spec fn with_layouts(v: Seq<OutputView>, ls: Seq<(Seq<char>, Option<(i32, i32)>, Option<(u32, u32)>)>) -> Seq<OutputView> {
    v.map_values(|o: OutputView| with_layout(o, ls))
}

fn last_layout_index(layouts: &[OutputLayout], name: &String) -> (r: Option<usize>)
    ensures
        match r {
            Some(k) => k < layouts@.len() && last_layout(layouts_view(layouts@), name@) == Some(layout_view(layouts@[k as int])),
            None => last_layout(layouts_view(layouts@), name@) is None,
        },
{
    let ghost ls = layouts_view(layouts@);
    let mut i: usize = layouts.len();
    assert(ls.subrange(0, ls.len() as int) =~= ls);
    while i > 0
        invariant
            ls == layouts_view(layouts@),
            i <= ls.len(),
            last_layout(ls, name@) == last_layout(ls.subrange(0, i as int), name@),
        decreases i,
    {
        let ghost w = ls.subrange(0, i as int);
        assert(w.last() == ls[i - 1]);
        assert(w.drop_last() =~= ls.subrange(0, i - 1));
        if layouts[i - 1].name == *name {
            return Some(i - 1);
        }
        i -= 1;
    }
    None
}

/// The outputs with the positions and sizes their layouts give.
pub fn apply_layouts(targets: &[DisplayOutput], layouts: &[OutputLayout]) -> (r: Vec<DisplayOutput>)
    ensures
        outputs_view(r@) == with_layouts(outputs_view(targets@), layouts_view(layouts@)),
{
    let ghost want = with_layouts(outputs_view(targets@), layouts_view(layouts@));
    let mut r: Vec<DisplayOutput> = Vec::new();
    let mut i: usize = 0;
    while i < targets.len()
        invariant
            want == with_layouts(outputs_view(targets@), layouts_view(layouts@)),
            i <= targets@.len(),
            outputs_view(r@) == want.subrange(0, i as int),
        decreases targets@.len() - i,
    {
        let mut o = targets[i].duplicate();
        match last_layout_index(layouts, &targets[i].name) {
            Some(k) => {
                if let Some(p) = layouts[k].position {
                    o.position = Some(p);
                }
                if let Some(size) = layouts[k].size {
                    o.current_mode = Some(size);
                }
            },
            None => {},
        }
        assert(o@ == want[i as int]);
        let ghost before = outputs_view(r@);
        r.push(o);
        assert(outputs_view(r@) =~= before.push(want[i as int]));
        assert(want.subrange(0, i + 1) =~= want.subrange(0, i as int).push(want[i as int]));
        i += 1;
    }
    assert(want.subrange(0, targets@.len() as int) =~= want);
    r
}

/// The outputs are in order of name.
pub open spec fn sorted_by_name(v: Seq<OutputView>) -> bool {
    forall|i: int, j: int| 0 <= i < j < v.len() ==> text_le(#[trigger] v[i].name, #[trigger] v[j].name)
}

fn name_le(a: &DisplayOutput, b: &DisplayOutput) -> (r: bool)
    ensures
        r == text_le(a.name@, b.name@),
{
    let an = chars_of(a.name.as_str());
    let bn = chars_of(b.name.as_str());
    text_le_exec(an.as_slice(), bn.as_slice())
}

pub open spec fn name_pred(name: Seq<char>) -> spec_fn(OutputView) -> bool {
    |o: OutputView| o.name == name
}

/// The outputs of `v` called `name`, in their order in `v`.
pub open spec fn named(v: Seq<OutputView>, name: Seq<char>) -> Seq<OutputView> {
    v.filter(name_pred(name))
}

/// The outputs in order of name; outputs of the same name keep their order.
pub fn sort_by_name(outputs: Vec<DisplayOutput>) -> (r: Vec<DisplayOutput>)
    ensures
        sorted_by_name(outputs_view(r@)),
        outputs_view(r@).to_multiset() == outputs_view(outputs@).to_multiset(),
        forall|name: Seq<char>| #[trigger] named(outputs_view(r@), name) == named(outputs_view(outputs@), name),
{
    let ghost input = outputs_view(outputs@);
    let mut out: Vec<DisplayOutput> = Vec::new();
    broadcast use vstd::seq_lib::group_to_multiset_ensures;
    assert(outputs_view(out@) =~= Seq::<OutputView>::empty());
    assert(input.subrange(0, 0) =~= Seq::<OutputView>::empty());
    let n = outputs.len();
    let mut i: usize = 0;
    while i < n
        invariant
            n == input.len(),
            outputs_view(outputs@) == input,
            i <= n,
            sorted_by_name(outputs_view(out@)),
            outputs_view(out@).to_multiset() == input.subrange(0, i as int).to_multiset(),
            forall|name: Seq<char>| #[trigger] named(outputs_view(out@), name) == named(input.subrange(0, i as int), name),
        decreases n - i,
    {
        let x = outputs[i].duplicate();
        let ghost o = outputs_view(out@);
        let mut p: usize = 0;
        while p < out.len() && name_le(&out[p], &x)
            invariant
                o == outputs_view(out@),
                p <= o.len(),
                forall|k: int| 0 <= k < p ==> text_le(#[trigger] o[k].name, x@.name),
            decreases o.len() - p,
        {
            p += 1;
        }
        proof {
            if p < o.len() {
                lemma_text_le_total(o[p as int].name, x@.name);
            }
            assert forall|k: int| p <= k < o.len() implies text_le(x@.name, #[trigger] o[k].name) by {
                lemma_text_le_total(o[p as int].name, x@.name);
                if k > p {
                    assert(text_le(o[p as int].name, o[k].name));
                    lemma_text_le_trans(x@.name, o[p as int].name, o[k].name);
                }
            }
        }
        out.insert(p, x);
        proof {
            let o2 = outputs_view(out@);
            assert(o2 =~= o.insert(p as int, x@));
            assert forall|a: int, b: int| 0 <= a < b < o2.len() implies text_le(#[trigger] o2[a].name, #[trigger] o2[b].name) by {
                if a < p && b < p {
                } else if a < p && b == p {
                } else if a < p && b > p {
                    assert(o2[b] == o[b - 1]);
                } else if a == p {
                    assert(o2[b] == o[b - 1]);
                } else {
                    assert(o2[a] == o[a - 1]);
                    assert(o2[b] == o[b - 1]);
                }
            }
            vstd::seq_lib::to_multiset_insert(o, p as int, x@);
            assert(input.subrange(0, i + 1) =~= input.subrange(0, i as int).push(input[i as int]));
            assert(x@ == input[i as int]);
            vstd::seq_lib::to_multiset_build(input.subrange(0, i as int), input[i as int]);
            assert forall|name: Seq<char>| #[trigger] named(o2, name) == named(input.subrange(0, i + 1), name) by {
                if x@.name == name {
                    assert forall|k: int| p <= k < o.len() implies !(#[trigger] name_pred(name)(o[k])) by {
                        lemma_text_le_total(x@.name, x@.name);
                        if k > p && o[k].name == name {
                            assert(text_le(o[p as int].name, o[k].name));
                        }
                    }
                }
                assert(named(o, name) == named(input.subrange(0, i as int), name));
                lemma_filter_insert(o, p as int, x@, name_pred(name));
                assert(named(o2, name) == named(o, name) + seq![x@].filter(name_pred(name)));
                Seq::filter_distributes_over_add(input.subrange(0, i as int), seq![x@], name_pred(name));
                assert(input.subrange(0, i + 1) =~= input.subrange(0, i as int) + seq![x@]);
            }
        }
        i += 1;
    }
    assert(input.subrange(0, n as int) =~= input);
    out
}


/// The refusal when the primary display's position would leave `i32`.
pub open spec fn position_out_of_range(primary_output: Seq<char>) -> Seq<char> {
    "The position of "@ + primary_output + " is out of range."@
}

/// The enable step once the targets are listed again: the targets take their
/// saved positions and sizes, the primary position is adjusted to how they
/// stack, and the targets come in order of name (those of one name in their
/// order). Refused when the adjusted position would leave `i32`.
pub fn plan_enable(
    primary_output: &str,
    primary_position: Option<(i32, i32)>,
    resolved: &[DisplayOutput],
    outputs_to_enable: &[OutputLayout],
) -> (r: Result<(Option<(i32, i32)>, Vec<DisplayOutput>), String>)
    ensures
        ({
            let t = with_layouts(outputs_view(resolved@), layouts_view(outputs_to_enable@));
            match r {
                Ok((position, ordered)) => {
                    &&& stacking_in_range(primary_output@, primary_position, t)
                    &&& position == stacked_position(primary_output@, primary_position, t)
                    &&& sorted_by_name(outputs_view(ordered@))
                    &&& outputs_view(ordered@).to_multiset() == t.to_multiset()
                    &&& forall|name: Seq<char>| #[trigger] named(outputs_view(ordered@), name) == named(t, name)
                },
                Err(e) => !stacking_in_range(primary_output@, primary_position, t) && e@ == position_out_of_range(primary_output@),
            }
        }),
{
    let targets = apply_layouts(resolved, outputs_to_enable);
    if !stacking_fits(primary_output, primary_position, targets.as_slice()) {
        let mut e = chars_of("The position of ");
        push_str(&mut e, primary_output);
        push_str(&mut e, " is out of range.");
        return Err(to_string(e.as_slice()));
    }
    let adjusted = normalize_stacked_primary_position(primary_output, primary_position, targets.as_slice());
    let ordered = sort_by_name(targets);
    Ok((adjusted, ordered))
}

// ---------------------------------------------------------------------------
// The commands
// ---------------------------------------------------------------------------

/// Where outputs without a saved position start: the right edge of the
/// desktop, or 0 when it is left of 0.
pub fn cursor_start(right_edge: i32) -> (r: i32)
    ensures
        r == if right_edge < 0 { 0 } else { right_edge },
{
    if right_edge < 0 {
        0
    } else {
        right_edge
    }
}

/// The width of the first output listed under a name, when it has a mode.
pub open spec fn width_listed(v: Seq<OutputView>, name: Seq<char>) -> Option<u32> {
    if has_named(v, name) {
        match v[first_named(v, name)].current_mode {
            Some((w, _)) => Some(w),
            None => None,
        }
    } else {
        None
    }
}

/// The width a listing gives an output, if it lists it with a mode.
pub fn mode_width(outputs: &[DisplayOutput], output_name: &str) -> (r: Option<u32>)
    ensures
        r == width_listed(outputs_view(outputs@), output_name@),
{
    let ghost v = outputs_view(outputs@);
    match find_output(outputs, output_name) {
        Some(o) => {
            proof {
                let j = choose|j: int| is_first_named(v, output_name@, j) && o == outputs@[j];
                let f = first_named(v, output_name@);
                assert(has_named(v, output_name@)) by {
                    assert(v[j].name == output_name@);
                }
                assert(is_first_named(v, output_name@, f));
                if j < f {
                    assert(v[j].name == output_name@);
                } else if f < j {
                    assert(v[f].name == output_name@);
                }
            }
            match o.current_mode {
                Some((w, _)) => Some(w),
                None => None,
            }
        },
        None => None,
    }
}

/// An output's place: its own position, else at the cursor on the top edge.
pub open spec fn place(o: OutputView, cursor: int) -> (int, int) {
    match o.position {
        Some((x, y)) => (x as int, y as int),
        None => (cursor, 0),
    }
}

/// The cursor after an output: moved right by the output's width when the
/// output was placed at the cursor and its width is known.
pub open spec fn advanced(cursor: int, o: OutputView, width: Option<u32>) -> int {
    if o.position is None {
        match width {
            Some(w) => cursor + (w as i32),
            None => cursor,
        }
    } else {
        cursor
    }
}

/// The width resolved for output `k`, if any.
pub open spec fn width_at(widths: Seq<Option<u32>>, k: int) -> Option<u32> {
    if 0 <= k < widths.len() {
        widths[k]
    } else {
        None
    }
}

/// The cursor before output `k`.
pub open spec fn cursor_at(start: int, v: Seq<OutputView>, widths: Seq<Option<u32>>, k: int) -> int
    decreases k,
{
    if k <= 0 {
        start
    } else {
        advanced(cursor_at(start, v, widths, k - 1), v[k - 1], width_at(widths, k - 1))
    }
}

/// Every cursor along the outputs fits in `i32`.
pub open spec fn cursor_fits(start: int, v: Seq<OutputView>, widths: Seq<Option<u32>>) -> bool {
    forall|k: int| 0 <= k <= v.len() ==> i32::MIN <= #[trigger] cursor_at(start, v, widths, k) <= i32::MAX
}

/// The `kscreen-doctor` settings that turn on the first `n` outputs where they belong.
pub open spec fn ks_target_args(start: int, v: Seq<OutputView>, widths: Seq<Option<u32>>, n: int) -> Seq<Seq<char>>
    decreases n,
{
    if n <= 0 {
        Seq::empty()
    } else {
        let k = n - 1;
        let (x, y) = place(v[k], cursor_at(start, v, widths, k));
        ks_target_args(start, v, widths, k) + seq![ks_arg(v[k].id, ".enable"@), ks_position(v[k].id, x, y)]
    }
}

/// The `kscreen-doctor` settings that turn on the outputs and then the primary
/// display, as primary, at its position when it has one.
pub open spec fn ks_enable_args(p: OutputView, pp: Option<(i32, i32)>, v: Seq<OutputView>, start: int, widths: Seq<Option<u32>>) -> Seq<Seq<char>> {
    ks_target_args(start, v, widths, v.len() as int) + seq![ks_arg(p.id, ".enable"@), ks_arg(p.id, ".primary"@)] + match pp {
        Some((x, y)) => seq![ks_position(p.id, x as int, y as int)],
        None => Seq::empty(),
    }
}

fn ks_arg_text(id: &String, suffix: &str) -> (r: String)
    ensures
        r@ == ks_arg(id@, suffix@),
{
    let mut v = chars_of("output.");
    push_str(&mut v, id.as_str());
    push_str(&mut v, suffix);
    to_string(v.as_slice())
}

fn ks_position_text(id: &String, x: i32, y: i32) -> (r: String)
    ensures
        r@ == ks_position(id@, x as int, y as int),
{
    let mut v = chars_of("output.");
    push_str(&mut v, id.as_str());
    push_str(&mut v, ".position.");
    push_dec_signed(&mut v, x as i64);
    push_str(&mut v, ",");
    push_dec_signed(&mut v, y as i64);
    assert(v@ =~= ks_position(id@, x as int, y as int));
    to_string(v.as_slice())
}

fn xy_text_exec(x: i32, y: i32) -> (r: String)
    ensures
        r@ == xy_text(x as int, y as int),
{
    let mut v: Vec<char> = Vec::new();
    push_dec_signed(&mut v, x as i64);
    push_str(&mut v, "x");
    push_dec_signed(&mut v, y as i64);
    assert(v@ =~= xy_text(x as int, y as int));
    to_string(v.as_slice())
}

/// The place of an output: its own position, else at the cursor on the top edge.
pub fn target_position(output: &DisplayOutput, cursor_x: i32) -> (r: (i32, i32))
    ensures
        (r.0 as int, r.1 as int) == place(output@, cursor_x as int),
{
    match output.position {
        Some(p) => p,
        None => (cursor_x, 0),
    }
}

/// The cursor after an output was turned on, given its resolved width.
pub fn advance_cursor(cursor_x: i32, output: &DisplayOutput, width: Option<u32>) -> (r: i32)
    requires
        i32::MIN <= advanced(cursor_x as int, output@, width) <= i32::MAX,
    ensures
        r == advanced(cursor_x as int, output@, width),
{
    if output.position.is_none() {
        match width {
            Some(w) => cursor_x + (w as i32),
            None => cursor_x,
        }
    } else {
        cursor_x
    }
}

/// The `kscreen-doctor` command that turns the outputs on (placed at their
/// positions, or one after another from the desktop's right edge) and then the
/// primary display. `widths[k]` is the width resolved for output `k`, used
/// when that output has no position.
pub fn kscreen_enable_command(
    primary: &DisplayOutput,
    primary_position: Option<(i32, i32)>,
    targets: &[DisplayOutput],
    right_edge: i32,
    widths: &[Option<u32>],
) -> (r: CommandLine)
    requires
        cursor_fits(if right_edge < 0 { 0 } else { right_edge as int }, outputs_view(targets@), widths@),
    ensures
        r.program@ == "kscreen-doctor"@,
        views(r.args@) == ks_enable_args(
            primary@,
            primary_position,
            outputs_view(targets@),
            if right_edge < 0 { 0 } else { right_edge as int },
            widths@,
        ),
{
    let ghost v = outputs_view(targets@);
    let start = cursor_start(right_edge);
    let mut cursor = start;
    let mut args: Vec<String> = Vec::new();
    let mut k: usize = 0;
    while k < targets.len()
        invariant
            v == outputs_view(targets@),
            k <= v.len(),
            cursor_fits(start as int, v, widths@),
            cursor as int == cursor_at(start as int, v, widths@, k as int),
            views(args@) == ks_target_args(start as int, v, widths@, k as int),
        decreases v.len() - k,
    {
        let t = &targets[k];
        assert(v[k as int] == t@);
        let pos = target_position(t, cursor);
        let ghost before = views(args@);
        args.push(ks_arg_text(&t.id, ".enable"));
        args.push(ks_position_text(&t.id, pos.0, pos.1));
        assert(views(args@) =~= before + seq![ks_arg(t.id@, ".enable"@), ks_position(t.id@, pos.0 as int, pos.1 as int)]);
        let w: Option<u32> = if k < widths.len() { widths[k] } else { None };
        assert(cursor_at(start as int, v, widths@, k + 1) == advanced(cursor as int, t@, w));
        assert(i32::MIN <= cursor_at(start as int, v, widths@, k + 1) <= i32::MAX);
        cursor = advance_cursor(cursor, t, w);
        k += 1;
    }
    let ghost before = views(args@);
    args.push(ks_arg_text(&primary.id, ".enable"));
    args.push(ks_arg_text(&primary.id, ".primary"));
    if let Some((x, y)) = primary_position {
        args.push(ks_position_text(&primary.id, x, y));
        assert(views(args@) =~= before + seq![ks_arg(primary.id@, ".enable"@), ks_arg(primary.id@, ".primary"@)] + seq![ks_position(primary.id@, x as int, y as int)]);
    } else {
        assert(views(args@) =~= before + seq![ks_arg(primary.id@, ".enable"@), ks_arg(primary.id@, ".primary"@)] + Seq::<Seq<char>>::empty());
    }
    CommandLine { program: lit("kscreen-doctor"), args }
}

/// The `xrandr` command that turns the primary display on, as primary, at its
/// position when it has one.
pub fn xrandr_primary_command(primary: &DisplayOutput, primary_position: Option<(i32, i32)>) -> (r: CommandLine)
    ensures
        r.program@ == "xrandr"@,
        views(r.args@) == seq!["--output"@, primary.name@, "--auto"@, "--primary"@] + match primary_position {
            Some((x, y)) => seq!["--pos"@, xy_text(x as int, y as int)],
            None => Seq::empty(),
        },
{
    let mut args: Vec<String> = Vec::new();
    args.push(lit("--output"));
    args.push(primary.name.clone());
    args.push(lit("--auto"));
    args.push(lit("--primary"));
    let ghost head = seq!["--output"@, primary.name@, "--auto"@, "--primary"@];
    assert(views(args@) =~= head);
    if let Some((x, y)) = primary_position {
        args.push(lit("--pos"));
        args.push(xy_text_exec(x, y));
        assert(views(args@) =~= head + seq!["--pos"@, xy_text(x as int, y as int)]);
    } else {
        assert(views(args@) =~= head + Seq::<Seq<char>>::empty());
    }
    CommandLine { program: lit("xrandr"), args }
}

/// The `xrandr` command that turns one output on at its place.
pub fn xrandr_enable_command(output: &DisplayOutput, cursor_x: i32) -> (r: CommandLine)
    ensures
        r.program@ == "xrandr"@,
        views(r.args@) == seq![
            "--output"@,
            output.name@,
            "--auto"@,
            "--pos"@,
            xy_text(place(output@, cursor_x as int).0, place(output@, cursor_x as int).1),
        ],
{
    let pos = target_position(output, cursor_x);
    let mut args: Vec<String> = Vec::new();
    args.push(lit("--output"));
    args.push(output.name.clone());
    args.push(lit("--auto"));
    args.push(lit("--pos"));
    args.push(xy_text_exec(pos.0, pos.1));
    assert(views(args@) =~= seq!["--output"@, output.name@, "--auto"@, "--pos"@, xy_text(pos.0 as int, pos.1 as int)]);
    CommandLine { program: lit("xrandr"), args }
}

} // verus!
