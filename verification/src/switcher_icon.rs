//! The standalone input switcher's tray icon: a white monitor on a coloured
//! panel, with a badge that shows `1`, `2` or a dot. Straight strokes are
//! rectangles with radius 0.
use crate::icon::{
    argb, blank, c, icon_input, lemma_concat_in_range, icon_input_spec, mx, mxe, paint_all, push_shape, rect_in_range, render, rgb, sh, shape,
    shapes_in_range, Color, IconInput, Shape, TrayIcon, MAX_CANVAS,
};
use vstd::prelude::*;

verus! {

/// The switcher icon's colours for one input.
#[derive(Clone, Copy, Debug, PartialEq, Eq, Structural)]
pub struct SwitcherPalette {
    pub background: Color,
    pub screen: Color,
    pub accent: Color,
}

pub open spec fn switcher_palette_spec(i: IconInput) -> SwitcherPalette {
    match i {
        IconInput::Hdmi1 => SwitcherPalette { background: rgb(15, 92, 86), screen: rgb(10, 33, 38), accent: rgb(94, 234, 212) },
        IconInput::Hdmi2 => SwitcherPalette { background: rgb(148, 76, 22), screen: rgb(55, 25, 9), accent: rgb(251, 191, 36) },
        IconInput::Other => SwitcherPalette { background: rgb(71, 85, 105), screen: rgb(15, 23, 42), accent: rgb(226, 232, 240) },
    }
}

/// The switcher icon's colours: teal for HDMI 1, amber for HDMI 2, slate
/// otherwise.
pub fn icon_palette(i: IconInput) -> (r: SwitcherPalette)
    ensures
        r == switcher_palette_spec(i),
{
    match i {
        IconInput::Hdmi1 => SwitcherPalette { background: c(15, 92, 86), screen: c(10, 33, 38), accent: c(94, 234, 212) },
        IconInput::Hdmi2 => SwitcherPalette { background: c(148, 76, 22), screen: c(55, 25, 9), accent: c(251, 191, 36) },
        IconInput::Other => SwitcherPalette { background: c(71, 85, 105), screen: c(15, 23, 42), accent: c(226, 232, 240) },
    }
}

/// The white of the monitor drawing.
pub open spec fn white() -> Color {
    rgb(248, 250, 252)
}

/// The mark in a badge of side `n` at `(x, y)`: a `1` or a `2` in straight
/// strokes, or a round dot.
pub open spec fn switcher_mark_shapes(x: int, y: int, n: int, i: IconInput, color: Color) -> Seq<Shape> {
    let stroke = mx(n / 6, 1);
    let top = y + n / 5;
    match i {
        IconInput::Hdmi1 => {
            let center = x + n / 2;
            seq![
                shape(center - stroke / 2, top, stroke, n - n / 3, 0, color),
                shape(center - stroke, top + stroke / 2, stroke, stroke, 0, color),
            ]
        },
        IconInput::Hdmi2 => {
            let left = x + n / 5;
            let width = n - n / 3;
            let middle = y + n / 2;
            let bottom = y + n - n / 4;
            seq![
                shape(left, top, width, stroke, 0, color),
                shape(left + width - stroke, top, stroke, middle - top, 0, color),
                shape(left, middle - stroke / 2, width, stroke, 0, color),
                shape(left, middle, stroke, bottom - middle, 0, color),
                shape(left, bottom - stroke, width, stroke, 0, color),
            ]
        },
        IconInput::Other => {
            let d = mx(n / 4, 1);
            seq![shape(x + (n - d) / 2, y + (n - d) / 2, d, d, mx(d / 2, 1), color)]
        },
    }
}

/// The side of the switcher icon's badge.
pub open spec fn badge_side(size: int) -> int {
    mx(size / 3, 5)
}

/// Where the badge starts, on both axes.
pub open spec fn badge_at(size: int) -> int {
    size - mx(size / 12, 1) - badge_side(size)
}

/// The panel, the screen with its bezel, the stem, the base and the badge.
pub open spec fn switcher_body_shapes(size: int, p: SwitcherPalette) -> Seq<Shape> {
    let inset = mx(size / 12, 1);
    let panel = size - inset * 2;
    let margin = mx(size / 5, 2);
    let top = mx(size / 4, 3);
    let sw = size - margin * 2;
    let shh = mx(size * 6 / 16, 5);
    let bezel = mx(size / 16, 1);
    let stem_w = mx(size / 8, 2);
    let stem_h = mx(size / 8, 2);
    let stem_y = top + shh;
    let base_w = mx(size / 3, 5);
    let base_h = mx(size / 14, 1);
    let badge = badge_side(size);
    let b = badge_at(size);
    seq![
        shape(inset, inset, panel, panel, mx(size / 4, 2), p.background),
        shape(margin, top, sw, shh, mx(size / 10, 2), white()),
        shape(margin + bezel, top + bezel, sw - bezel * 2, shh - bezel * 2, mx(size / 12, 1), p.screen),
        shape((size - stem_w) / 2, stem_y, stem_w, stem_h, 0, white()),
        shape((size - base_w) / 2, stem_y + stem_h, base_w, base_h + 1, mx(size / 20, 1), white()),
        shape(b, b, badge, badge, mx(badge / 3, 2), p.accent),
    ]
}

/// The switcher icon of side `size`, shape by shape: its body, then the mark
/// in the badge.
pub open spec fn switcher_icon_shapes(i: IconInput, size: int) -> Seq<Shape> {
    let p = switcher_palette_spec(i);
    switcher_body_shapes(size, p) + switcher_mark_shapes(badge_at(size), badge_at(size), badge_side(size), i, p.screen)
}

fn switcher_mark_list(out: &mut Vec<Shape>, x: i32, y: i32, n: i32, i: IconInput, color: Color)
    requires
        0 <= x <= 23170,
        0 <= y <= 23170,
        5 <= n <= 11585,
    ensures
        final(out)@ == old(out)@ + switcher_mark_shapes(x as int, y as int, n as int, i, color),
{
    let stroke = mxe(n / 6, 1);
    let top = y + n / 5;
    let ghost start = out@;
    match i {
        IconInput::Hdmi1 => {
            let center = x + n / 2;
            push_shape(out, sh(center - stroke / 2, top, stroke, n - n / 3, 0, color));
            push_shape(out, sh(center - stroke, top + stroke / 2, stroke, stroke, 0, color));
        },
        IconInput::Hdmi2 => {
            let left = x + n / 5;
            let width = n - n / 3;
            let middle = y + n / 2;
            let bottom = y + n - n / 4;
            push_shape(out, sh(left, top, width, stroke, 0, color));
            push_shape(out, sh(left + width - stroke, top, stroke, middle - top, 0, color));
            push_shape(out, sh(left, middle - stroke / 2, width, stroke, 0, color));
            push_shape(out, sh(left, middle, stroke, bottom - middle, 0, color));
            push_shape(out, sh(left, bottom - stroke, width, stroke, 0, color));
        },
        IconInput::Other => {
            let d = mxe(n / 4, 1);
            push_shape(out, sh(x + (n - d) / 2, y + (n - d) / 2, d, d, mxe(d / 2, 1), color));
        },
    }
    assert(out@ =~= start + switcher_mark_shapes(x as int, y as int, n as int, i, color));
}

/// The shapes of the switcher icon of side `size`.
pub fn switcher_shape_list(i: IconInput, size: i32) -> (r: Vec<Shape>)
    requires
        16 <= size <= MAX_CANVAS,
    ensures
        r@ == switcher_icon_shapes(i, size as int),
{
    let p = icon_palette(i);
    let white = c(248, 250, 252);
    let inset = mxe(size / 12, 1);
    let panel = size - inset * 2;
    let margin = mxe(size / 5, 2);
    let top = mxe(size / 4, 3);
    let sw = size - margin * 2;
    let shh = mxe(size * 6 / 16, 5);
    let bezel = mxe(size / 16, 1);
    let stem_w = mxe(size / 8, 2);
    let stem_h = mxe(size / 8, 2);
    let stem_y = top + shh;
    let base_w = mxe(size / 3, 5);
    let base_h = mxe(size / 14, 1);
    let badge = mxe(size / 3, 5);
    let b = size - inset - badge;
    let mut out: Vec<Shape> = Vec::new();
    push_shape(&mut out, sh(inset, inset, panel, panel, mxe(size / 4, 2), p.background));
    push_shape(&mut out, sh(margin, top, sw, shh, mxe(size / 10, 2), white));
    push_shape(&mut out, sh(margin + bezel, top + bezel, sw - bezel * 2, shh - bezel * 2, mxe(size / 12, 1), p.screen));
    push_shape(&mut out, sh((size - stem_w) / 2, stem_y, stem_w, stem_h, 0, white));
    push_shape(&mut out, sh((size - base_w) / 2, stem_y + stem_h, base_w, base_h + 1, mxe(size / 20, 1), white));
    push_shape(&mut out, sh(b, b, badge, badge, mxe(badge / 3, 2), p.accent));
    assert(out@ =~= switcher_body_shapes(size as int, p));
    switcher_mark_list(&mut out, b, b, badge, i, p.screen);
    assert(out@ =~= switcher_icon_shapes(i, size as int));
    out
}

/// The switcher icon's shapes stay within `MAX_COORD` for every side from 16
/// to `MAX_CANVAS`.
pub proof fn lemma_switcher_icon_in_range(i: IconInput, size: int)
    requires
        16 <= size <= MAX_CANVAS,
    ensures
        shapes_in_range(switcher_icon_shapes(i, size)),
{
    let p = switcher_palette_spec(i);
    let body = switcher_body_shapes(size, p);
    assert forall|k: int| 0 <= k < body.len() implies rect_in_range(#[trigger] body[k].rect, body[k].radius) by {}
    let b = badge_at(size);
    let n = badge_side(size);
    assert(0 <= b <= 23170 && 5 <= n <= 11585);
    let mark = switcher_mark_shapes(b, b, n, i, p.screen);
    assert forall|k: int| 0 <= k < mark.len() implies rect_in_range(#[trigger] mark[k].rect, mark[k].radius) by {}
    lemma_concat_in_range(body, mark);
}

/// The switcher's tray icon for the current input, at least 16 pixels wide.
pub fn monitor_tray_icon(input: Option<&str>, size: i32) -> (r: TrayIcon)
    requires
        size <= MAX_CANVAS,
    ensures
        r.width == mx(size as int, 16),
        r.height == mx(size as int, 16),
        r.data@ == argb(paint_all(blank(mx(size as int, 16)), mx(size as int, 16), switcher_icon_shapes(icon_input_spec(match input {
            Some(v) => Some(v@),
            None => None,
        }), mx(size as int, 16)))),
{
    let side = if size < 16 { 16 } else { size };
    let i = icon_input(input);
    let shapes = switcher_shape_list(i, side);
    proof {
        lemma_switcher_icon_in_range(i, side as int);
    }
    let canvas = render(side, &shapes);
    TrayIcon { width: side, height: side, data: canvas.into_argb() }
}

} // verus!
