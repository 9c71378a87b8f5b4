//! The tray icon: a small monitor drawn with rounded rectangles, coloured by
//! the current input.
use vstd::prelude::*;

verus! {

/// A colour with alpha.
#[derive(Clone, Copy, Debug, PartialEq, Eq, Structural)]
pub struct Color {
    pub r: u8,
    pub g: u8,
    pub b: u8,
    pub a: u8,
}

/// An opaque colour.
pub open spec fn rgb(r: u8, g: u8, b: u8) -> Color {
    Color { r, g, b, a: 255 }
}

/// A rectangle in pixels.
#[derive(Clone, Copy, Debug, PartialEq, Eq, Structural)]
pub struct Rect {
    pub x: i32,
    pub y: i32,
    pub width: i32,
    pub height: i32,
}

/// The largest canvas side: the largest whose ARGB byte count, `side * side * 4`,
/// fits in an `i32`.
pub const MAX_CANVAS: i32 = 23170;

/// The coordinates a shape may use.
pub const MAX_COORD: i32 = 65535;

/// A square picture, row by row.
pub struct Canvas {
    size: i32,
    pixels: Vec<Color>,
}

impl Canvas {
    pub closed spec fn side(&self) -> int {
        self.size as int
    }

    pub closed spec fn pixels_view(&self) -> Seq<Color> {
        self.pixels@
    }

    /// The canvas has `side * side` pixels, and its side is between 1 and `MAX_CANVAS`.
    pub open spec fn wf(&self) -> bool {
        &&& 1 <= self.side() <= MAX_CANVAS
        &&& self.pixels_view().len() == self.side() * self.side()
    }
}

/// The radius used for a rectangle: the given one, at least 0 and at most
/// half the width and half the height.
pub open spec fn clamped_radius(rect: Rect, radius: i32) -> int {
    let r = if radius < 0 { 0 } else { radius as int };
    let r = if r > rect.width / 2 { rect.width / 2 } else { r };
    if r > rect.height / 2 { rect.height / 2 } else { r }
}

/// How far a coordinate lies inside a rounded corner along one axis (0 away
/// from the corners).
pub open spec fn corner_offset(p: int, start: int, len: int, r: int) -> int {
    if p < start + r {
        start + r - p - 1
    } else if p >= start + len - r {
        p - (start + len - r)
    } else {
        0
    }
}

/// Pixel `(px, py)` of a canvas of side `size` lies in the rounded rectangle.
pub open spec fn covers(size: int, rect: Rect, radius: i32, px: int, py: int) -> bool {
    let r = clamped_radius(rect, radius);
    let dx = corner_offset(px, rect.x as int, rect.width as int, r);
    let dy = corner_offset(py, rect.y as int, rect.height as int, r);
    &&& rect.width > 0 && rect.height > 0
    &&& 0 <= px < size && 0 <= py < size
    &&& rect.x <= px < rect.x + rect.width
    &&& rect.y <= py < rect.y + rect.height
    &&& dx * dx + dy * dy <= r * r
}

/// The pixels after filling a rounded rectangle with a colour.
pub open spec fn paint(pixels: Seq<Color>, size: int, rect: Rect, radius: i32, color: Color) -> Seq<Color> {
    Seq::new(pixels.len(), |k: int| if covers(size, rect, radius, k % size, k / size) { color } else { pixels[k] })
}

/// The rectangle's numbers stay within `MAX_COORD`.
pub open spec fn rect_in_range(rect: Rect, radius: i32) -> bool {
    &&& -MAX_COORD <= rect.x <= MAX_COORD
    &&& -MAX_COORD <= rect.y <= MAX_COORD
    &&& -MAX_COORD <= rect.width <= MAX_COORD
    &&& -MAX_COORD <= rect.height <= MAX_COORD
    &&& -MAX_COORD <= radius <= MAX_COORD
}

/// Pixel `k` is in a row before `row`, or in `row` before column `col`.
pub open spec fn done_before(size: int, row: int, col: int, k: int) -> bool {
    k / size < row || (k / size == row && k % size < col)
}

proof fn lemma_index(size: int, px: int, py: int)
    requires
        size > 0,
        0 <= px < size,
        0 <= py,
    ensures
        (py * size + px) % size == px,
        (py * size + px) / size == py,
{
    vstd::arithmetic::div_mod::lemma_fundamental_div_mod_converse(py * size + px, size, py, px);
}

proof fn lemma_same_cell(size: int, k: int, px: int, py: int)
    requires
        size > 0,
        0 <= k,
        k % size == px,
        k / size == py,
    ensures
        k == py * size + px,
{
    vstd::arithmetic::div_mod::lemma_fundamental_div_mod(k, size);
    vstd::arithmetic::mul::lemma_mul_is_commutative(size, k / size);
}

proof fn lemma_cell_bounds(size: int, k: int)
    requires
        size > 0,
        0 <= k < size * size,
    ensures
        0 <= k % size < size,
        0 <= k / size < size,
{
    vstd::arithmetic::div_mod::lemma_mod_bound(k, size);
    vstd::arithmetic::div_mod::lemma_div_pos_is_pos(k, size);
    vstd::arithmetic::div_mod::lemma_div_by_multiple_is_strongly_ordered(k, size * size, size, size);
    assert((size * size) / size == size) by {
        vstd::arithmetic::div_mod::lemma_div_multiples_vanish(size, size);
    }
}

impl Canvas {
    /// A transparent canvas of the given side.
    pub fn new(size: i32) -> (r: Canvas)
        requires
            1 <= size <= MAX_CANVAS,
        ensures
            r.wf(),
            r.side() == size,
            r.pixels_view() == Seq::new((size * size) as nat, |k: int| Color { r: 0, g: 0, b: 0, a: 0 }),
    {
        assert((size as usize) * (size as usize) <= 23170 * 23170) by (nonlinear_arith)
            requires
                1 <= size <= 23170,
        ;
        let n: usize = (size as usize) * (size as usize);
        assert(n == size * size) by (nonlinear_arith)
            requires
                n == (size as usize) * (size as usize),
                1 <= size <= 23170,
        ;
        let mut pixels: Vec<Color> = Vec::new();
        let mut i: usize = 0;
        while i < n
            invariant
                i <= n,
                pixels@ == Seq::new(i as nat, |k: int| Color { r: 0, g: 0, b: 0, a: 0 }),
            decreases n - i,
        {
            pixels.push(Color { r: 0, g: 0, b: 0, a: 0 });
            i += 1;
            assert(pixels@ =~= Seq::new(i as nat, |k: int| Color { r: 0, g: 0, b: 0, a: 0 }));
        }
        Canvas { size, pixels }
    }

    /// Fills a rounded rectangle: the pixels inside the rectangle and the
    /// canvas, and not cut off by a corner of the clamped radius.
    pub fn fill_round_rect(&mut self, rect: Rect, radius: i32, color: Color)
        requires
            old(self).wf(),
            rect_in_range(rect, radius),
        ensures
            final(self).wf(),
            final(self).side() == old(self).side(),
            final(self).pixels_view() == paint(old(self).pixels_view(), old(self).side(), rect, radius, color),
    {
        let ghost old_px = self.pixels@;
        let ghost size = self.size as int;
        if rect.width <= 0 || rect.height <= 0 {
            assert(self.pixels@ =~= paint(old_px, size, rect, radius, color));
            return;
        }
        let mut r: i32 = if radius < 0 { 0 } else { radius };
        if r > rect.width / 2 {
            r = rect.width / 2;
        }
        if r > rect.height / 2 {
            r = rect.height / 2;
        }
        assert(r == clamped_radius(rect, radius));
        let x_end: i32 = if rect.x + rect.width < self.size { rect.x + rect.width } else { self.size };
        let y_end: i32 = if rect.y + rect.height < self.size { rect.y + rect.height } else { self.size };
        let x_start: i32 = if rect.x < 0 { 0 } else { rect.x };
        let mut py: i32 = if rect.y < 0 { 0 } else { rect.y };
        let ghost y_start = py as int;
        proof {
            assert forall|k: int| 0 <= k < old_px.len() implies #[trigger] self.pixels@[k] == (if done_before(size, y_start, 0, k)
                && covers(size, rect, radius, k % size, k / size) { color } else { old_px[k] }) by {
                lemma_cell_bounds(size, k);
                if done_before(size, y_start, 0, k) {
                    assert(!covers(size, rect, radius, k % size, k / size));
                }
            }
        }
        while py < y_end
            invariant
                self.wf(),
                self.size as int == size,
                self.pixels@.len() == old_px.len(),
                old_px.len() == size * size,
                rect.width > 0 && rect.height > 0,
                rect_in_range(rect, radius),
                r == clamped_radius(rect, radius),
                x_start == (if rect.x < 0 { 0 } else { rect.x }),
                x_end == (if rect.x + rect.width < size { rect.x + rect.width } else { size }),
                y_end == (if rect.y + rect.height < size { rect.y + rect.height } else { size }),
                py >= 0,
                py >= rect.y,
                forall|k: int| 0 <= k < old_px.len() ==> #[trigger] self.pixels@[k] == (if done_before(size, py as int, 0, k)
                    && covers(size, rect, radius, k % size, k / size) { color } else { old_px[k] }),
            decreases y_end - py,
        {
            let mut px: i32 = x_start;
            proof {
                assert forall|k: int| 0 <= k < old_px.len() implies #[trigger] self.pixels@[k] == (if done_before(size, py as int, px as int, k)
                    && covers(size, rect, radius, k % size, k / size) { color } else { old_px[k] }) by {
                    lemma_cell_bounds(size, k);
                    if k / size == py && k % size < px {
                        assert(!covers(size, rect, radius, k % size, k / size));
                    }
                }
            }
            while px < x_end
                invariant
                    self.wf(),
                    self.size as int == size,
                    self.pixels@.len() == old_px.len(),
                    old_px.len() == size * size,
                    rect.width > 0 && rect.height > 0,
                    rect_in_range(rect, radius),
                    r == clamped_radius(rect, radius),
                    x_end == (if rect.x + rect.width < size { rect.x + rect.width } else { size }),
                    0 <= py < y_end,
                    y_end <= size,
                    py >= rect.y,
                    py < rect.y + rect.height,
                    px >= 0,
                    px >= rect.x,
                    forall|k: int| 0 <= k < old_px.len() ==> #[trigger] self.pixels@[k] == (if done_before(size, py as int, px as int, k)
                        && covers(size, rect, radius, k % size, k / size) { color } else { old_px[k] }),
                decreases x_end - px,
            {
                let dx: i32 = if px < rect.x + r {
                    rect.x + r - px - 1
                } else if px >= rect.x + rect.width - r {
                    px - (rect.x + rect.width - r)
                } else {
                    0
                };
                let dy: i32 = if py < rect.y + r {
                    rect.y + r - py - 1
                } else if py >= rect.y + rect.height - r {
                    py - (rect.y + rect.height - r)
                } else {
                    0
                };
                assert(0 <= dx <= r <= 32767 && 0 <= dy <= r);
                assert(dx * dx <= 32767 * 32767 && dy * dy <= 32767 * 32767 && r * r <= 32767 * 32767) by (nonlinear_arith)
                    requires
                        0 <= dx <= r <= 32767,
                        0 <= dy <= r,
                ;
                let inside = dx * dx + dy * dy <= r * r;
                let ghost idx = py * size + px;
                proof {
                    lemma_index(size, px as int, py as int);
                    assert(idx < size * size) by (nonlinear_arith)
                        requires
                            0 <= px < size,
                            0 <= py < size,
                            idx == py * size + px,
                    ;
                    assert(covers(size, rect, radius, px as int, py as int) == inside);
                }
                assert((py as usize) * (self.size as usize) <= 23170 * 23170) by (nonlinear_arith)
                    requires
                        0 <= py < size <= 23170,
                        self.size == size,
                ;
                let i: usize = (py as usize) * (self.size as usize) + (px as usize);
                assert(i == idx) by (nonlinear_arith)
                    requires
                        i == (py as usize) * (size as usize) + (px as usize),
                        idx == py * size + px,
                        0 <= py < size <= 23170,
                        0 <= px < size,
                ;
                let ghost before = self.pixels@;
                if inside {
                    self.pixels.set(i, color);
                }
                proof {
                    assert forall|k: int| 0 <= k < old_px.len() implies #[trigger] self.pixels@[k] == (if done_before(size, py as int, px + 1, k)
                        && covers(size, rect, radius, k % size, k / size) { color } else { old_px[k] }) by {
                        lemma_cell_bounds(size, k);
                        if k == idx {
                        } else {
                            assert(before[k] == self.pixels@[k]);
                            if k % size == px && k / size == py {
                                lemma_same_cell(size, k, px as int, py as int);
                            }
                        }
                    }
                }
                px += 1;
            }
            proof {
                assert forall|k: int| 0 <= k < old_px.len() implies #[trigger] self.pixels@[k] == (if done_before(size, py + 1, 0, k)
                    && covers(size, rect, radius, k % size, k / size) { color } else { old_px[k] }) by {
                    lemma_cell_bounds(size, k);
                    if k / size == py && k % size >= px {
                        assert(!covers(size, rect, radius, k % size, k / size));
                    }
                }
            }
            py += 1;
        }
        proof {
            assert forall|k: int| 0 <= k < old_px.len() implies #[trigger] self.pixels@[k] == paint(old_px, size, rect, radius, color)[k] by {
                lemma_cell_bounds(size, k);
                if k / size >= py {
                    assert(!covers(size, rect, radius, k % size, k / size));
                }
            }
            assert(self.pixels@ =~= paint(old_px, size, rect, radius, color));
        }
    }
}

/// A filled rounded rectangle.
#[derive(Clone, Copy, Debug, PartialEq, Eq, Structural)]
pub struct Shape {
    pub rect: Rect,
    pub radius: i32,
    pub color: Color,
}

/// The pixels after filling the shapes one after another.
pub open spec fn paint_all(pixels: Seq<Color>, size: int, shapes: Seq<Shape>) -> Seq<Color>
    decreases shapes.len(),
{
    if shapes.len() == 0 {
        pixels
    } else {
        let s = shapes.last();
        paint(paint_all(pixels, size, shapes.drop_last()), size, s.rect, s.radius, s.color)
    }
}

/// A transparent picture of side `size`.
pub open spec fn blank(size: int) -> Seq<Color> {
    Seq::new((size * size) as nat, |k: int| Color { r: 0, g: 0, b: 0, a: 0 })
}

/// The bytes of the pixels, each as alpha, red, green, blue.
pub open spec fn argb(pixels: Seq<Color>) -> Seq<u8>
    decreases pixels.len(),
{
    if pixels.len() == 0 {
        Seq::empty()
    } else {
        let p = pixels.last();
        argb(pixels.drop_last()) + seq![p.a, p.r, p.g, p.b]
    }
}

impl Canvas {
    /// The pixels as bytes: alpha, red, green, blue for each pixel, row by row.
    pub fn into_argb(self) -> (r: Vec<u8>)
        ensures
            r@ == argb(self.pixels_view()),
    {
        let mut out: Vec<u8> = Vec::new();
        let mut i: usize = 0;
        assert(self.pixels@.subrange(0, 0) =~= Seq::<Color>::empty());
        while i < self.pixels.len()
            invariant
                i <= self.pixels@.len(),
                out@ == argb(self.pixels@.subrange(0, i as int)),
            decreases self.pixels@.len() - i,
        {
            let p = self.pixels[i];
            out.push(p.a);
            out.push(p.r);
            out.push(p.g);
            out.push(p.b);
            let ghost w = self.pixels@.subrange(0, i + 1);
            assert(w.drop_last() =~= self.pixels@.subrange(0, i as int));
            assert(w.last() == p);
            i += 1;
            assert(out@ =~= argb(self.pixels@.subrange(0, i as int)));
        }
        assert(self.pixels@.subrange(0, self.pixels@.len() as int) =~= self.pixels@);
        out
    }
}

/// Every shape's numbers stay within `MAX_COORD`.
pub open spec fn shapes_in_range(shapes: Seq<Shape>) -> bool {
    forall|k: int| 0 <= k < shapes.len() ==> rect_in_range(#[trigger] shapes[k].rect, shapes[k].radius)
}

/// Paints the shapes, in order, on a transparent canvas of side `size`.
pub fn render(size: i32, shapes: &Vec<Shape>) -> (r: Canvas)
    requires
        1 <= size <= MAX_CANVAS,
        shapes_in_range(shapes@),
    ensures
        r.wf(),
        r.side() == size,
        r.pixels_view() == paint_all(blank(size as int), size as int, shapes@),
{
    let mut c = Canvas::new(size);
    let mut i: usize = 0;
    assert(shapes@.subrange(0, 0) =~= Seq::<Shape>::empty());
    assert(c.pixels_view() =~= blank(size as int));
    while i < shapes.len()
        invariant
            i <= shapes@.len(),
            shapes_in_range(shapes@),
            c.wf(),
            c.side() == size,
            c.pixels_view() == paint_all(blank(size as int), size as int, shapes@.subrange(0, i as int)),
        decreases shapes@.len() - i,
    {
        let sh = shapes[i];
        assert(rect_in_range(shapes@[i as int].rect, shapes@[i as int].radius));
        c.fill_round_rect(sh.rect, sh.radius, sh.color);
        let ghost w = shapes@.subrange(0, i + 1);
        assert(w.drop_last() =~= shapes@.subrange(0, i as int));
        assert(w.last() == sh);
        i += 1;
    }
    assert(shapes@.subrange(0, shapes@.len() as int) =~= shapes@);
    c
}

// ---------------------------------------------------------------------------
// The monitor picture
// ---------------------------------------------------------------------------

/// The colours of the icon for one input.
#[derive(Clone, Copy, Debug, PartialEq, Eq, Structural)]
pub struct IconPalette {
    pub shell: Color,
    pub shell_highlight: Color,
    pub screen: Color,
    pub screen_detail: Color,
    pub accent: Color,
    pub accent_muted: Color,
    pub badge_text: Color,
}

/// Which input the icon shows: HDMI 1 (`0x11`), HDMI 2 (`0x12`) or another.
#[derive(Clone, Copy, Debug, PartialEq, Eq, Structural)]
pub enum IconInput {
    Hdmi1,
    Hdmi2,
    Other,
}

pub open spec fn icon_input_spec(input: Option<Seq<char>>) -> IconInput {
    match input {
        Some(v) => if v == "0x11"@ {
            IconInput::Hdmi1
        } else if v == "0x12"@ {
            IconInput::Hdmi2
        } else {
            IconInput::Other
        },
        None => IconInput::Other,
    }
}

/// Which input an input value shows.
pub fn icon_input(input: Option<&str>) -> (r: IconInput)
    ensures
        r == icon_input_spec(match input {
            Some(v) => Some(v@),
            None => None,
        }),
{
    match input {
        Some(v) => {
            let c = crate::text::chars_of(v);
            if crate::text::eq_chars_str(c.as_slice(), "0x11") {
                IconInput::Hdmi1
            } else if crate::text::eq_chars_str(c.as_slice(), "0x12") {
                IconInput::Hdmi2
            } else {
                IconInput::Other
            }
        },
        None => IconInput::Other,
    }
}

pub open spec fn palette_spec(i: IconInput) -> IconPalette {
    match i {
        IconInput::Hdmi1 => IconPalette {
            shell: rgb(16, 24, 40),
            shell_highlight: rgb(71, 85, 105),
            screen: rgb(11, 42, 54),
            screen_detail: rgb(18, 74, 90),
            accent: rgb(52, 211, 153),
            accent_muted: rgb(110, 231, 183),
            badge_text: rgb(4, 26, 30),
        },
        IconInput::Hdmi2 => IconPalette {
            shell: rgb(19, 24, 34),
            shell_highlight: rgb(100, 116, 139),
            screen: rgb(61, 27, 43),
            screen_detail: rgb(104, 42, 68),
            accent: rgb(251, 146, 60),
            accent_muted: rgb(253, 186, 116),
            badge_text: rgb(58, 24, 8),
        },
        IconInput::Other => IconPalette {
            shell: rgb(30, 41, 59),
            shell_highlight: rgb(148, 163, 184),
            screen: rgb(30, 41, 59),
            screen_detail: rgb(51, 65, 85),
            accent: rgb(226, 232, 240),
            accent_muted: rgb(203, 213, 225),
            badge_text: rgb(15, 23, 42),
        },
    }
}

pub(crate) fn c(r: u8, g: u8, b: u8) -> (x: Color)
    ensures
        x == rgb(r, g, b),
{
    Color { r, g, b, a: 255 }
}

/// The icon's colours for an input: green for HDMI 1, orange for HDMI 2,
/// grey otherwise.
pub fn icon_palette(i: IconInput) -> (r: IconPalette)
    ensures
        r == palette_spec(i),
{
    match i {
        IconInput::Hdmi1 => IconPalette {
            shell: c(16, 24, 40),
            shell_highlight: c(71, 85, 105),
            screen: c(11, 42, 54),
            screen_detail: c(18, 74, 90),
            accent: c(52, 211, 153),
            accent_muted: c(110, 231, 183),
            badge_text: c(4, 26, 30),
        },
        IconInput::Hdmi2 => IconPalette {
            shell: c(19, 24, 34),
            shell_highlight: c(100, 116, 139),
            screen: c(61, 27, 43),
            screen_detail: c(104, 42, 68),
            accent: c(251, 146, 60),
            accent_muted: c(253, 186, 116),
            badge_text: c(58, 24, 8),
        },
        IconInput::Other => IconPalette {
            shell: c(30, 41, 59),
            shell_highlight: c(148, 163, 184),
            screen: c(30, 41, 59),
            screen_detail: c(51, 65, 85),
            accent: c(226, 232, 240),
            accent_muted: c(203, 213, 225),
            badge_text: c(15, 23, 42),
        },
    }
}

pub open spec fn mx(a: int, b: int) -> int {
    if a > b { a } else { b }
}

/// A shape from whole numbers.
pub open spec fn shape(x: int, y: int, w: int, h: int, r: int, color: Color) -> Shape {
    Shape { rect: Rect { x: x as i32, y: y as i32, width: w as i32, height: h as i32 }, radius: r as i32, color }
}

pub open spec fn shadow() -> Color {
    Color { r: 15, g: 23, b: 42, a: 70 }
}

/// The pattern on the screen: a panel, and one rail (two rails for HDMI 2).
pub open spec fn screen_shapes(x: int, y: int, w: int, h: int, i: IconInput, p: IconPalette) -> Seq<Shape> {
    let mh = mx(h / 4, 3);
    let panel = shape(x + mx(w / 6, 1), y + mx(h / 4, 1), mx(w / 4, 3), mh, mx(mh / 3, 1), p.screen_detail);
    let rail_h = mx(h / 8, 1);
    let rail_w = w - mx(w / 4, 3);
    let rail_x = x + mx(w / 7, 1);
    let rail_y = y + h - rail_h - mx(h / 5, 1);
    match i {
        IconInput::Hdmi2 => seq![
            panel,
            shape(rail_x, rail_y - rail_h - mx(rail_h / 2, 1), mx(rail_w * 3 / 4, 3), rail_h, rail_h, p.accent_muted),
            shape(rail_x, rail_y, rail_w, rail_h, rail_h, p.accent),
        ],
        IconInput::Hdmi1 => seq![panel, shape(rail_x, rail_y, rail_w, rail_h, rail_h, p.accent)],
        IconInput::Other => seq![panel, shape(rail_x, rail_y, rail_w, rail_h, rail_h, p.accent_muted)],
    }
}

/// The mark inside the badge: `1`, `2` or a dot.
pub open spec fn mark_shapes(x: int, y: int, n: int, i: IconInput, color: Color) -> Seq<Shape> {
    let stroke = mx(n / 5, 1);
    let top = y + n / 5;
    let bottom = y + n - n / 5;
    match i {
        IconInput::Hdmi1 => {
            let center = x + n / 2;
            seq![
                shape(center - stroke / 2, top, stroke, bottom - top, stroke / 2, color),
                shape(center - stroke, top + stroke / 2, stroke + 1, stroke, stroke / 2, color),
            ]
        },
        IconInput::Hdmi2 => {
            let left = x + n / 5;
            let width = n - n * 2 / 5;
            let middle = y + n / 2;
            seq![
                shape(left, top, width, stroke, stroke / 2, color),
                shape(left + width - stroke, top, stroke, middle - top, stroke / 2, color),
                shape(left, middle - stroke / 2, width, stroke, stroke / 2, color),
                shape(left, middle, stroke, bottom - middle, stroke / 2, color),
                shape(left, bottom - stroke, width, stroke, stroke / 2, color),
            ]
        },
        IconInput::Other => {
            let d = mx(n / 3, 1);
            seq![shape(x + (n - d) / 2, y + (n - d) / 2, d, d, d / 2, color)]
        },
    }
}

/// The round badge at the lower right, with its mark.
pub open spec fn badge_shapes(x: int, y: int, n: int, i: IconInput, p: IconPalette) -> Seq<Shape> {
    let inset = mx(n / 8, 1);
    let inner = n - inset * 2;
    seq![
        shape(x, y + mx(n / 10, 1), n, n, n / 2, shadow()),
        shape(x, y, n, n, n / 2, rgb(241, 245, 249)),
        shape(x + inset, y + inset, inner, inner, inner / 2, p.accent),
    ] + mark_shapes(x + inset, y + inset, inner, i, p.badge_text)
}

/// The monitor's frame: its shadow, the shell, the screen and the highlight.
pub open spec fn frame_shapes(size: int, p: IconPalette) -> Seq<Shape> {
    let shell_x = mx(size / 8, 1);
    let shell_y = mx(size / 6, 2);
    let shell_w = size - shell_x * 2;
    let shell_h = mx(size * 9 / 16, 8);
    let shell_r = mx(size / 5, 2);
    let inset = mx(size / 14, 1);
    let sx = shell_x + inset;
    let sy = shell_y + inset;
    let sw = shell_w - inset * 2;
    let sh = shell_h - inset * 2;
    seq![
        shape(shell_x, shell_y + mx(size / 18, 1), shell_w, shell_h, shell_r, shadow()),
        shape(shell_x, shell_y, shell_w, shell_h, shell_r, p.shell),
        shape(sx, sy, sw, sh, mx(size / 7, 2), p.screen),
        shape(sx + inset, sy + inset, mx(sw * 2 / 3, 3), mx(size / 18, 1), 1, p.shell_highlight),
    ]
}

/// The monitor's stand: the stem and the base.
pub open spec fn stand_shapes(size: int, p: IconPalette) -> Seq<Shape> {
    let shell_y = mx(size / 6, 2);
    let shell_h = mx(size * 9 / 16, 8);
    let inset = mx(size / 14, 1);
    let stem_w = mx(size / 10, 2);
    let stem_h = mx(size / 7, 2);
    let stem_y = shell_y + shell_h - inset / 2;
    let base_w = mx(size * 7 / 20, 6);
    let base_h = mx(size / 16, 1);
    seq![
        shape((size - stem_w) / 2, stem_y, stem_w, stem_h, mx(stem_w / 2, 1), p.shell),
        shape((size - base_w) / 2, stem_y + stem_h - 1, base_w, base_h + 1, mx(base_h + 1, 1), p.shell_highlight),
    ]
}

/// The whole icon of side `size`, shape by shape: frame, screen pattern,
/// stand, badge.
pub open spec fn icon_shapes(i: IconInput, size: int) -> Seq<Shape> {
    let p = palette_spec(i);
    let shell_x = mx(size / 8, 1);
    let shell_y = mx(size / 6, 2);
    let shell_w = size - shell_x * 2;
    let shell_h = mx(size * 9 / 16, 8);
    let inset = mx(size / 14, 1);
    let badge = mx(size * 5 / 16, 6);
    frame_shapes(size, p) + screen_shapes(shell_x + inset, shell_y + inset, shell_w - inset * 2, shell_h - inset * 2, i, p)
        + stand_shapes(size, p) + badge_shapes(shell_x + shell_w - badge + mx(size / 30, 0), shell_y + shell_h - badge / 2, badge, i, p)
}

pub(crate) fn mxe(a: i32, b: i32) -> (r: i32)
    ensures
        r == mx(a as int, b as int),
{
    if a > b { a } else { b }
}

pub(crate) fn sh(x: i32, y: i32, w: i32, h: i32, r: i32, color: Color) -> (s: Shape)
    ensures
        s == shape(x as int, y as int, w as int, h as int, r as int, color),
{
    Shape { rect: Rect { x, y, width: w, height: h }, radius: r, color }
}

pub(crate) fn push_shape(v: &mut Vec<Shape>, s: Shape)
    ensures
        final(v)@ == old(v)@.push(s),
{
    v.push(s);
}

fn screen_shape_list(out: &mut Vec<Shape>, x: i32, y: i32, w: i32, h: i32, i: IconInput, p: IconPalette)
    requires
        0 <= x <= 23170,
        0 <= y <= 23170,
        0 <= w <= 23170,
        0 <= h <= 23170,
    ensures
        final(out)@ == old(out)@ + screen_shapes(x as int, y as int, w as int, h as int, i, p),
{
    let mh = mxe(h / 4, 3);
    let panel = sh(x + mxe(w / 6, 1), y + mxe(h / 4, 1), mxe(w / 4, 3), mh, mxe(mh / 3, 1), p.screen_detail);
    let rail_h = mxe(h / 8, 1);
    let rail_w = w - mxe(w / 4, 3);
    let rail_x = x + mxe(w / 7, 1);
    let rail_y = y + h - rail_h - mxe(h / 5, 1);
    let ghost start = out@;
    push_shape(out, panel);
    match i {
        IconInput::Hdmi2 => {
            push_shape(out, sh(rail_x, rail_y - rail_h - mxe(rail_h / 2, 1), mxe(rail_w * 3 / 4, 3), rail_h, rail_h, p.accent_muted));
            push_shape(out, sh(rail_x, rail_y, rail_w, rail_h, rail_h, p.accent));
        },
        IconInput::Hdmi1 => {
            push_shape(out, sh(rail_x, rail_y, rail_w, rail_h, rail_h, p.accent));
        },
        IconInput::Other => {
            push_shape(out, sh(rail_x, rail_y, rail_w, rail_h, rail_h, p.accent_muted));
        },
    }
    assert(out@ =~= start + screen_shapes(x as int, y as int, w as int, h as int, i, p));
}

fn mark_shape_list(out: &mut Vec<Shape>, x: i32, y: i32, n: i32, i: IconInput, color: Color)
    requires
        0 <= x <= 46340,
        0 <= y <= 46340,
        3 <= n <= 23170,
    ensures
        final(out)@ == old(out)@ + mark_shapes(x as int, y as int, n as int, i, color),
{
    let stroke = mxe(n / 5, 1);
    let top = y + n / 5;
    let bottom = y + n - n / 5;
    let ghost start = out@;
    match i {
        IconInput::Hdmi1 => {
            let center = x + n / 2;
            push_shape(out, sh(center - stroke / 2, top, stroke, bottom - top, stroke / 2, color));
            push_shape(out, sh(center - stroke, top + stroke / 2, stroke + 1, stroke, stroke / 2, color));
            assert(out@ =~= start + mark_shapes(x as int, y as int, n as int, i, color));
        },
        IconInput::Hdmi2 => {
            let left = x + n / 5;
            let width = n - n * 2 / 5;
            let middle = y + n / 2;
            push_shape(out, sh(left, top, width, stroke, stroke / 2, color));
            push_shape(out, sh(left + width - stroke, top, stroke, middle - top, stroke / 2, color));
            push_shape(out, sh(left, middle - stroke / 2, width, stroke, stroke / 2, color));
            push_shape(out, sh(left, middle, stroke, bottom - middle, stroke / 2, color));
            push_shape(out, sh(left, bottom - stroke, width, stroke, stroke / 2, color));
            assert(out@ =~= start + mark_shapes(x as int, y as int, n as int, i, color));
        },
        IconInput::Other => {
            let d = mxe(n / 3, 1);
            push_shape(out, sh(x + (n - d) / 2, y + (n - d) / 2, d, d, d / 2, color));
            assert(out@ =~= start + mark_shapes(x as int, y as int, n as int, i, color));
        },
    }
}

fn badge_shape_list(out: &mut Vec<Shape>, bx: i32, by: i32, badge: i32, i: IconInput, p: IconPalette)
    requires
        0 <= bx <= 23170,
        0 <= by <= 23170,
        6 <= badge <= 11585,
    ensures
        final(out)@ == old(out)@ + badge_shapes(bx as int, by as int, badge as int, i, p),
{
    let ghost before_badge = out@;
    let binset = mxe(badge / 8, 1);
    let inner = badge - binset * 2;
    push_shape(out, sh(bx, by + mxe(badge / 10, 1), badge, badge, badge / 2, Color { r: 15, g: 23, b: 42, a: 70 }));
    push_shape(out, sh(bx, by, badge, badge, badge / 2, Color { r: 241, g: 245, b: 249, a: 255 }));
    push_shape(out, sh(bx + binset, by + binset, inner, inner, inner / 2, p.accent));
    let ghost three = out@;
    mark_shape_list(out, bx + binset, by + binset, inner, i, p.badge_text);
    assert(three =~= before_badge + seq![
        shape(bx as int, by + mx(badge / 10, 1), badge as int, badge as int, badge / 2, shadow()),
        shape(bx as int, by as int, badge as int, badge as int, badge / 2, rgb(241, 245, 249)),
        shape(bx + binset, by + binset, inner as int, inner as int, inner / 2, p.accent),
    ]);
    assert(out@ =~= before_badge + badge_shapes(bx as int, by as int, badge as int, i, p));
}

fn frame_shape_list(out: &mut Vec<Shape>, size: i32, p: IconPalette)
    requires
        16 <= size <= MAX_CANVAS,
    ensures
        final(out)@ == old(out)@ + frame_shapes(size as int, p),
{
    let shell_x = mxe(size / 8, 1);
    let shell_y = mxe(size / 6, 2);
    let shell_w = size - shell_x * 2;
    let shell_h = mxe(size * 9 / 16, 8);
    let shell_r = mxe(size / 5, 2);
    let inset = mxe(size / 14, 1);
    let sx = shell_x + inset;
    let sy = shell_y + inset;
    let sw = shell_w - inset * 2;
    let shh = shell_h - inset * 2;
    let ghost start = out@;
    push_shape(out, sh(shell_x, shell_y + mxe(size / 18, 1), shell_w, shell_h, shell_r, Color { r: 15, g: 23, b: 42, a: 70 }));
    push_shape(out, sh(shell_x, shell_y, shell_w, shell_h, shell_r, p.shell));
    push_shape(out, sh(sx, sy, sw, shh, mxe(size / 7, 2), p.screen));
    push_shape(out, sh(sx + inset, sy + inset, mxe(sw * 2 / 3, 3), mxe(size / 18, 1), 1, p.shell_highlight));
    assert(out@ =~= start + frame_shapes(size as int, p));
}

fn stand_shape_list(out: &mut Vec<Shape>, size: i32, p: IconPalette)
    requires
        16 <= size <= MAX_CANVAS,
    ensures
        final(out)@ == old(out)@ + stand_shapes(size as int, p),
{
    let shell_y = mxe(size / 6, 2);
    let shell_h = mxe(size * 9 / 16, 8);
    let inset = mxe(size / 14, 1);
    let stem_w = mxe(size / 10, 2);
    let stem_h = mxe(size / 7, 2);
    let stem_y = shell_y + shell_h - inset / 2;
    let base_w = mxe(size * 7 / 20, 6);
    let base_h = mxe(size / 16, 1);
    let ghost start = out@;
    push_shape(out, sh((size - stem_w) / 2, stem_y, stem_w, stem_h, mxe(stem_w / 2, 1), p.shell));
    push_shape(out, sh((size - base_w) / 2, stem_y + stem_h - 1, base_w, base_h + 1, mxe(base_h + 1, 1), p.shell_highlight));
    assert(out@ =~= start + stand_shapes(size as int, p));
}

/// The shapes of the icon of side `size`.
#[verifier::spinoff_prover]
#[verifier::rlimit(50)]
pub fn icon_shape_list(i: IconInput, size: i32) -> (r: Vec<Shape>)
    requires
        16 <= size <= MAX_CANVAS,
    ensures
        r@ == icon_shapes(i, size as int),
{
    let p = icon_palette(i);
    let shell_x = mxe(size / 8, 1);
    let shell_y = mxe(size / 6, 2);
    let shell_w = size - shell_x * 2;
    let shell_h = mxe(size * 9 / 16, 8);
    let inset = mxe(size / 14, 1);
    let badge = mxe(size * 5 / 16, 6);
    assert(1 <= shell_x <= 2896 && 2 <= shell_y <= 3861 && 8 <= shell_h <= 13033 && 1 <= inset <= 1655 && 6 <= badge <= 7240);
    assert(shell_w >= size - size / 4 - 2);
    let mut out: Vec<Shape> = Vec::new();
    frame_shape_list(&mut out, size, p);
    screen_shape_list(&mut out, shell_x + inset, shell_y + inset, shell_w - inset * 2, shell_h - inset * 2, i, p);
    stand_shape_list(&mut out, size, p);
    badge_shape_list(&mut out, shell_x + shell_w - badge + mxe(size / 30, 0), shell_y + shell_h - badge / 2, badge, i, p);
    assert(out@ =~= icon_shapes(i, size as int));
    out
}

pub(crate) proof fn lemma_concat_in_range(a: Seq<Shape>, b: Seq<Shape>)
    requires
        shapes_in_range(a),
        shapes_in_range(b),
    ensures
        shapes_in_range(a + b),
{
    assert forall|k: int| 0 <= k < (a + b).len() implies rect_in_range(#[trigger] (a + b)[k].rect, (a + b)[k].radius) by {
        if k < a.len() {
            assert((a + b)[k] == a[k]);
        } else {
            assert((a + b)[k] == b[k - a.len()]);
        }
    }
}

proof fn lemma_frame_in_range(size: int, p: IconPalette)
    requires
        16 <= size <= MAX_CANVAS,
    ensures
        shapes_in_range(frame_shapes(size, p)),
{
    let f = frame_shapes(size, p);
    assert forall|k: int| 0 <= k < f.len() implies rect_in_range(#[trigger] f[k].rect, f[k].radius) by {}
}

proof fn lemma_stand_in_range(size: int, p: IconPalette)
    requires
        16 <= size <= MAX_CANVAS,
    ensures
        shapes_in_range(stand_shapes(size, p)),
{
    let f = stand_shapes(size, p);
    assert forall|k: int| 0 <= k < f.len() implies rect_in_range(#[trigger] f[k].rect, f[k].radius) by {}
}

proof fn lemma_screen_in_range(x: int, y: int, w: int, h: int, i: IconInput, p: IconPalette)
    requires
        0 <= x <= 23170,
        0 <= y <= 23170,
        0 <= w <= 23170,
        0 <= h <= 23170,
    ensures
        shapes_in_range(screen_shapes(x, y, w, h, i, p)),
{
    let f = screen_shapes(x, y, w, h, i, p);
    assert forall|k: int| 0 <= k < f.len() implies rect_in_range(#[trigger] f[k].rect, f[k].radius) by {}
}

proof fn lemma_mark_in_range(x: int, y: int, n: int, i: IconInput, color: Color)
    requires
        0 <= x <= 46340,
        0 <= y <= 46340,
        0 <= n <= 23170,
    ensures
        shapes_in_range(mark_shapes(x, y, n, i, color)),
{
    let f = mark_shapes(x, y, n, i, color);
    assert forall|k: int| 0 <= k < f.len() implies rect_in_range(#[trigger] f[k].rect, f[k].radius) by {}
}

proof fn lemma_badge_in_range(x: int, y: int, n: int, i: IconInput, p: IconPalette)
    requires
        0 <= x <= 23170,
        0 <= y <= 23170,
        6 <= n <= 11585,
    ensures
        shapes_in_range(badge_shapes(x, y, n, i, p)),
{
    let inset = mx(n / 8, 1);
    let inner = n - inset * 2;
    let head = seq![
        shape(x, y + mx(n / 10, 1), n, n, n / 2, shadow()),
        shape(x, y, n, n, n / 2, rgb(241, 245, 249)),
        shape(x + inset, y + inset, inner, inner, inner / 2, p.accent),
    ];
    assert forall|k: int| 0 <= k < head.len() implies rect_in_range(#[trigger] head[k].rect, head[k].radius) by {}
    lemma_mark_in_range(x + inset, y + inset, inner, i, p.badge_text);
    lemma_concat_in_range(head, mark_shapes(x + inset, y + inset, inner, i, p.badge_text));
}

/// The icon's shapes stay within `MAX_COORD` for every side from 16 to `MAX_CANVAS`.
pub proof fn lemma_icon_in_range(i: IconInput, size: int)
    requires
        16 <= size <= MAX_CANVAS,
    ensures
        shapes_in_range(icon_shapes(i, size)),
{
    let p = palette_spec(i);
    let shell_x = mx(size / 8, 1);
    let shell_y = mx(size / 6, 2);
    let shell_w = size - shell_x * 2;
    let shell_h = mx(size * 9 / 16, 8);
    let inset = mx(size / 14, 1);
    let badge = mx(size * 5 / 16, 6);
    lemma_frame_in_range(size, p);
    lemma_screen_in_range(shell_x + inset, shell_y + inset, shell_w - inset * 2, shell_h - inset * 2, i, p);
    lemma_stand_in_range(size, p);
    lemma_badge_in_range(shell_x + shell_w - badge + mx(size / 30, 0), shell_y + shell_h - badge / 2, badge, i, p);
    let f = frame_shapes(size, p);
    let sc = screen_shapes(shell_x + inset, shell_y + inset, shell_w - inset * 2, shell_h - inset * 2, i, p);
    let st = stand_shapes(size, p);
    let b = badge_shapes(shell_x + shell_w - badge + mx(size / 30, 0), shell_y + shell_h - badge / 2, badge, i, p);
    lemma_concat_in_range(f, sc);
    lemma_concat_in_range(f + sc, st);
    lemma_concat_in_range(f + sc + st, b);
}

/// A tray icon: its side twice (width, height) and its ARGB bytes.
#[derive(Debug)]
pub struct TrayIcon {
    pub width: i32,
    pub height: i32,
    pub data: Vec<u8>,
}

/// The tray icon for the current input, at least 16 pixels wide: a monitor
/// with a badge, green with a `1` for HDMI 1, orange with a `2` for HDMI 2,
/// grey with a dot otherwise.
pub fn monitor_tray_icon(input: Option<&str>, size: i32) -> (r: TrayIcon)
    requires
        size <= MAX_CANVAS,
    ensures
        r.width == mx(size as int, 16),
        r.height == mx(size as int, 16),
        r.data@ == argb(paint_all(blank(mx(size as int, 16)), mx(size as int, 16), icon_shapes(icon_input_spec(match input {
            Some(v) => Some(v@),
            None => None,
        }), mx(size as int, 16)))),
{
    let side = if size < 16 { 16 } else { size };
    let i = icon_input(input);
    let shapes = icon_shape_list(i, side);
    proof {
        lemma_icon_in_range(i, side as int);
    }
    let canvas = render(side, &shapes);
    TrayIcon { width: side, height: side, data: canvas.into_argb() }
}

} // verus!
