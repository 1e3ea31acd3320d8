//! Overlay theme and the shared grid-overlay rasterizer: frames become
//! premultiplied BGRA pixels, top-down.
use vstd::prelude::*;
use crate::grid::{fits_i64, CellView, FrameView, OverlayCell, OverlayFrame, Rect};
use vstd::string::StrSliceExecFns;
use crate::text::{lower_char, lower_char_exec};

verus! {

pub const PANEL_RGB: (u8, u8, u8) = (24, 28, 38);
pub const PANEL_ALPHA: u8 = 70;
pub const BORDER_RGB: (u8, u8, u8) = (100, 122, 150);
pub const HIGHLIGHT_RGB: (u8, u8, u8) = (255, 196, 64);
pub const HIGHLIGHT_ALPHA: u8 = 110;
pub const LABEL_RGB: (u8, u8, u8) = (240, 246, 255);
pub const POINTER_RGB: (u8, u8, u8) = (255, 96, 96);

pub const BORDER_PX: i64 = 1;
pub const HIGHLIGHT_BORDER_PX: i64 = 4;
pub const POINTER_ARM: i64 = 8;
pub const GLYPH_W: i64 = 5;
pub const GLYPH_H: i64 = 7;
pub const GLYPH_SCALE: i64 = 3;

/// User-tunable overlay colours and sizes; the defaults are the constants above.
#[derive(Debug, Clone, Copy, PartialEq, Eq)]
pub struct OverlayTheme {
    pub panel_rgb: (u8, u8, u8),
    pub panel_alpha: u8,
    pub border_rgb: (u8, u8, u8),
    pub border_px: i64,
    pub highlight_rgb: (u8, u8, u8),
    pub highlight_alpha: u8,
    pub label_rgb: (u8, u8, u8),
    pub pointer_rgb: (u8, u8, u8),
    /// Label glyph scale; 1 is smallest, larger means bigger text.
    pub glyph_scale: i64,
}

impl OverlayTheme {
    /// The built-in theme: the colour and size constants above.
    pub open spec fn standard() -> OverlayTheme {
        OverlayTheme {
            panel_rgb: PANEL_RGB,
            panel_alpha: PANEL_ALPHA,
            border_rgb: BORDER_RGB,
            border_px: BORDER_PX,
            highlight_rgb: HIGHLIGHT_RGB,
            highlight_alpha: HIGHLIGHT_ALPHA,
            label_rgb: LABEL_RGB,
            pointer_rgb: POINTER_RGB,
            glyph_scale: GLYPH_SCALE,
        }
    }
}

impl Default for OverlayTheme {
    fn default() -> (t: Self)
        ensures
            t == OverlayTheme::standard(),
    {
        OverlayTheme {
            panel_rgb: PANEL_RGB,
            panel_alpha: PANEL_ALPHA,
            border_rgb: BORDER_RGB,
            border_px: BORDER_PX,
            highlight_rgb: HIGHLIGHT_RGB,
            highlight_alpha: HIGHLIGHT_ALPHA,
            label_rgb: LABEL_RGB,
            pointer_rgb: POINTER_RGB,
            glyph_scale: GLYPH_SCALE,
        }
    }
}


/// A colour as stored: premultiplied blue, green, red, alpha.
pub type Rgba = (u8, u8, u8, u8);

/// Whether a rect covers the point.
pub open spec fn covers(r: Rect, x: int, y: int) -> bool {
    r.x <= x < r.x + r.width && r.y <= y < r.y + r.height
}

/// Byte offset of a pixel in a top-down image `w` pixels wide.
pub open spec fn offset(w: int, x: int, y: int) -> int {
    (y * w + x) * 4
}

/// The four bytes of a pixel.
pub open spec fn pixel_at(img: Seq<u8>, w: int, x: int, y: int) -> Rgba {
    let o = offset(w, x, y);
    (img[o], img[o + 1], img[o + 2], img[o + 3])
}

/// Distinct pixels occupy disjoint four-byte runs inside the image.
proof fn lemma_offsets(w: int, h: int, x: int, y: int, x2: int, y2: int)
    requires
        0 <= x < w,
        0 <= x2 < w,
        0 <= y < h,
        0 <= y2 < h,
    ensures
        0 <= offset(w, x, y),
        offset(w, x, y) + 4 <= w * h * 4,
        0 <= offset(w, x2, y2),
        offset(w, x2, y2) + 4 <= w * h * 4,
        (x != x2 || y != y2) ==> (offset(w, x, y) + 4 <= offset(w, x2, y2)
            || offset(w, x2, y2) + 4 <= offset(w, x, y)),
{
    assert(0 <= y * w) by (nonlinear_arith)
        requires
            0 <= y,
            0 <= w,
    ;
    assert(y * w + x < h * w) by (nonlinear_arith)
        requires
            0 <= x < w,
            0 <= y < h,
    ;
    assert(0 <= y2 * w) by (nonlinear_arith)
        requires
            0 <= y2,
            0 <= w,
    ;
    assert(y2 * w + x2 < h * w) by (nonlinear_arith)
        requires
            0 <= x2 < w,
            0 <= y2 < h,
    ;
    assert(h * w * 4 == w * h * 4) by (nonlinear_arith);
    if y < y2 {
        assert(y * w + x < y2 * w + x2) by (nonlinear_arith)
            requires
                0 <= x < w,
                0 <= x2,
                y < y2,
        ;
    } else if y2 < y {
        assert(y2 * w + x2 < y * w + x) by (nonlinear_arith)
            requires
                0 <= x2 < w,
                0 <= x,
                y2 < y,
        ;
    }
}

/// A pixel buffer being drawn on.
pub struct Canvas {
    pub width: i64,
    pub height: i64,
    pub pixels: Vec<u8>,
}

impl Canvas {
    pub open spec fn wf(&self) -> bool {
        &&& 1 <= self.width
        &&& 1 <= self.height
        &&& self.pixels@.len() == self.width * self.height * 4
    }

    pub open spec fn inside(&self, x: int, y: int) -> bool {
        0 <= x < self.width && 0 <= y < self.height
    }

    pub open spec fn at(&self, x: int, y: int) -> Rgba {
        pixel_at(self.pixels@, self.width as int, x, y)
    }

    /// A transparent canvas.
    pub fn blank(width: i64, height: i64) -> (c: Canvas)
        requires
            1 <= width,
            1 <= height,
            width * height * 4 <= usize::MAX,
        ensures
            c.wf(),
            c.width == width,
            c.height == height,
            forall|x: int, y: int| c.inside(x, y) ==> #[trigger] c.at(x, y) == (0u8, 0u8, 0u8, 0u8),
    {
        assert(width * height * 4 >= 0) by (nonlinear_arith)
            requires
                1 <= width,
                1 <= height,
        ;
        assert(width <= width * height && height <= width * height && width * height <= width * height * 4)
            by (nonlinear_arith)
            requires
                1 <= width,
                1 <= height,
        ;
        let wu = width as usize;
        let hu = height as usize;
        assert(wu * hu == width * height);
        let n: usize = wu * hu * 4;
        let mut pixels: Vec<u8> = Vec::with_capacity(n);
        let mut i: usize = 0;
        while i < n
            invariant
                i <= n,
                pixels@.len() == i,
                forall|j: int| 0 <= j < i ==> #[trigger] pixels@[j] == 0u8,
            decreases n - i,
        {
            pixels.push(0u8);
            i = i + 1;
        }
        let c = Canvas { width, height, pixels };
        assert forall|x: int, y: int| c.inside(x, y) implies #[trigger] c.at(x, y) == (0u8, 0u8, 0u8, 0u8) by {
            lemma_offsets(width as int, height as int, x, y, x, y);
        }
        c
    }

    /// Writes one pixel that lies inside the canvas.
    fn put_pixel(&mut self, x: i64, y: i64, c: Rgba)
        requires
            old(self).wf(),
            old(self).inside(x as int, y as int),
        ensures
            final(self).wf(),
            final(self).width == old(self).width,
            final(self).height == old(self).height,
            forall|px: int, py: int| #[trigger] final(self).inside(px, py) ==>
                final(self).at(px, py) == if px == x && py == y { c } else { old(self).at(px, py) },
    {
        proof {
            lemma_offsets(self.width as int, self.height as int, x as int, y as int, x as int, y as int);
        }
        assert(0 <= y * self.width) by (nonlinear_arith)
            requires
                0 <= y,
                0 <= self.width,
        ;
        assert((y * self.width + x) * 4 + 4 <= self.pixels@.len());
        let len = self.pixels.len();
        assert(self.width <= self.width * self.height * 4 && self.height <= self.width * self.height * 4)
            by (nonlinear_arith)
            requires
                1 <= self.width,
                1 <= self.height,
        ;
        let yu = y as usize;
        let wu = self.width as usize;
        assert(yu * wu == y * self.width);
        let row: usize = yu * wu;
        let o: usize = (row + x as usize) * 4;
        assert(o as int == offset(self.width as int, x as int, y as int));
        let ghost before = self.pixels@;
        assert(before.len() == self.width * self.height * 4);
        self.pixels.set(o, c.0);
        self.pixels.set(o + 1, c.1);
        self.pixels.set(o + 2, c.2);
        self.pixels.set(o + 3, c.3);
        proof {
            assert forall|px: int, py: int| #[trigger] self.inside(px, py) implies
                self.at(px, py) == if px == x && py == y { c } else { old(self).at(px, py) } by {
                lemma_offsets(self.width as int, self.height as int, x as int, y as int, px, py);
                let o2 = offset(self.width as int, px, py);
                assert(0 <= o2 && o2 + 4 <= before.len());
                if px != x || py != y {
                    assert(o2 + 4 <= o || o + 4 <= o2);
                    assert(self.pixels@[o2] == before[o2]);
                    assert(self.pixels@[o2 + 1] == before[o2 + 1]);
                    assert(self.pixels@[o2 + 2] == before[o2 + 2]);
                    assert(self.pixels@[o2 + 3] == before[o2 + 3]);
                }
            }
        }
    }

    /// Paints every pixel of the canvas that the rect covers.
    pub fn fill_rect(&mut self, r: Rect, c: Rgba)
        requires
            old(self).wf(),
        ensures
            final(self).wf(),
            final(self).width == old(self).width,
            final(self).height == old(self).height,
            forall|x: int, y: int| #[trigger] final(self).inside(x, y) ==>
                final(self).at(x, y) == if covers(r, x, y) { c } else { old(self).at(x, y) },
    {
        let left: i64 = if r.x < 0 { 0 } else { r.x };
        let top: i64 = if r.y < 0 { 0 } else { r.y };
        let re: i128 = r.x as i128 + r.width as i128;
        let be: i128 = r.y as i128 + r.height as i128;
        let right: i64 = if re <= 0 { 0 } else if re < self.width as i128 { re as i64 } else { self.width };
        let bottom: i64 = if be <= 0 { 0 } else if be < self.height as i128 { be as i64 } else { self.height };
        if left >= right || top >= bottom {
            return;
        }
        let ghost start = *self;
        let mut y = top;
        while y < bottom
            invariant
                self.wf(),
                self.width == start.width,
                self.height == start.height,
                start.wf(),
                0 <= left < right <= self.width,
                0 <= top <= y <= bottom <= self.height,
                left == if r.x < 0 { 0 } else { r.x as int },
                top == if r.y < 0 { 0 } else { r.y as int },
                right == if r.x + r.width <= 0 { 0 } else if r.x + r.width < self.width { r.x + r.width } else { self.width as int },
                bottom == if r.y + r.height <= 0 { 0 } else if r.y + r.height < self.height { r.y + r.height } else { self.height as int },
                forall|px: int, py: int| #[trigger] self.inside(px, py) ==>
                    self.at(px, py) == if left <= px < right && top <= py < y { c } else { start.at(px, py) },
            decreases bottom - y,
        {
            let mut x = left;
            while x < right
                invariant
                    self.wf(),
                    self.width == start.width,
                    self.height == start.height,
                    0 <= left <= x <= right <= self.width,
                    0 <= top <= y < bottom <= self.height,
                    forall|px: int, py: int| #[trigger] self.inside(px, py) ==>
                        self.at(px, py) == if (left <= px < right && top <= py < y) || (py == y && left <= px < x) {
                            c
                        } else {
                            start.at(px, py)
                        },
                decreases right - x,
            {
                let ghost prev = *self;
                self.put_pixel(x, y, c);
                proof {
                    assert forall|px: int, py: int| #[trigger] self.inside(px, py) implies
                        self.at(px, py) == if (left <= px < right && top <= py < y) || (py == y && left <= px < x + 1) {
                            c
                        } else {
                            start.at(px, py)
                        } by {
                        assert(prev.inside(px, py));
                    }
                }
                x = x + 1;
            }
            y = y + 1;
        }
        proof {
            assert forall|px: int, py: int| #[trigger] self.inside(px, py) implies
                self.at(px, py) == if covers(r, px, py) { c } else { old(self).at(px, py) } by {
                assert((left <= px < right && top <= py < bottom) == covers(r, px, py));
            }
        }
    }
}

/// One painting step: every covered pixel takes the colour.
pub struct Paint {
    pub rect: Rect,
    pub color: Rgba,
}

/// The colour a pixel ends up with after the steps, painted in order over `under`.
pub open spec fn paint_over(ops: Seq<Paint>, x: int, y: int, under: Rgba) -> Rgba
    decreases ops.len(),
{
    if ops.len() == 0 {
        under
    } else if covers(ops.last().rect, x, y) {
        ops.last().color
    } else {
        paint_over(ops.drop_last(), x, y, under)
    }
}

/// Painting `a` then `b` is painting `a + b`.
pub proof fn lemma_paint_concat(a: Seq<Paint>, b: Seq<Paint>, x: int, y: int, u: Rgba)
    ensures
        paint_over(a + b, x, y, u) == paint_over(b, x, y, paint_over(a, x, y, u)),
    decreases b.len(),
{
    if b.len() == 0 {
        assert(a + b =~= a);
    } else {
        assert((a + b).drop_last() =~= a + b.drop_last());
        assert((a + b).last() == b.last());
        lemma_paint_concat(a, b.drop_last(), x, y, u);
    }
}

/// `c` is `base` with the steps painted on it.
pub open spec fn drawn(c: Canvas, base: Canvas, ops: Seq<Paint>) -> bool {
    &&& c.wf()
    &&& base.wf()
    &&& c.width == base.width
    &&& c.height == base.height
    &&& forall|x: int, y: int| #[trigger] c.inside(x, y) ==> c.at(x, y) == paint_over(ops, x, y, base.at(x, y))
}

proof fn lemma_drawn_none(c: Canvas)
    requires
        c.wf(),
    ensures
        drawn(c, c, Seq::empty()),
{
}

proof fn lemma_drawn_trans(c0: Canvas, c1: Canvas, c2: Canvas, a: Seq<Paint>, b: Seq<Paint>)
    requires
        drawn(c1, c0, a),
        drawn(c2, c1, b),
    ensures
        drawn(c2, c0, a + b),
{
    assert forall|x: int, y: int| #[trigger] c2.inside(x, y) implies
        c2.at(x, y) == paint_over(a + b, x, y, c0.at(x, y)) by {
        assert(c1.inside(x, y));
        lemma_paint_concat(a, b, x, y, c0.at(x, y));
    }
}

/// Scales a colour channel by an alpha.
pub open spec fn scale_channel(c: u8, a: u8) -> u8 {
    ((c as int * a as int) / 255) as u8
}

/// A colour premultiplied by its alpha, in BGRA order.
pub open spec fn premul(rgb: (u8, u8, u8), alpha: u8) -> Rgba {
    (scale_channel(rgb.2, alpha), scale_channel(rgb.1, alpha), scale_channel(rgb.0, alpha), alpha)
}

fn scale_channel_exec(c: u8, a: u8) -> (r: u8)
    ensures
        r == scale_channel(c, a),
{
    assert(c as int * a as int <= 255 * 255) by (nonlinear_arith)
        requires
            c <= 255,
            a <= 255,
    ;
    let p: u16 = (c as u16) * (a as u16);
    ((p / 255) as u8)
}

fn premul_exec(rgb: (u8, u8, u8), alpha: u8) -> (r: Rgba)
    ensures
        r == premul(rgb, alpha),
{
    (scale_channel_exec(rgb.2, alpha), scale_channel_exec(rgb.1, alpha), scale_channel_exec(rgb.0, alpha), alpha)
}

/// A colour premultiplied by its alpha, as the BGRA bytes of one pixel.
pub fn premultiply(rgb: (u8, u8, u8), alpha: u8) -> (r: [u8; 4])
    ensures
        (r[0], r[1], r[2], r[3]) == premul(rgb, alpha),
{
    let c = premul_exec(rgb, alpha);
    [c.0, c.1, c.2, c.3]
}

pub open spec fn min_int(a: int, b: int) -> int {
    if a < b { a } else { b }
}

pub open spec fn max_int(a: int, b: int) -> int {
    if a > b { a } else { b }
}

/// A rect from integer coordinates.
pub open spec fn rect_of(x: int, y: int, w: int, h: int) -> Rect {
    Rect { x: x as i64, y: y as i64, width: w as i64, height: h as i64 }
}

pub open spec fn paint_of(r: Rect, c: Rgba) -> Paint {
    Paint { rect: r, color: c }
}

/// The four edges of a rect, `thickness` wide but at most half the rect.
pub open spec fn stroke_paints(r: Rect, thickness: int, c: Rgba) -> Seq<Paint> {
    if r.width <= 0 || r.height <= 0 || thickness <= 0 {
        Seq::empty()
    } else {
        let t = min_int(min_int(thickness, max_int(r.width / 2, 1)), max_int(r.height / 2, 1));
        seq![
            paint_of(rect_of(r.x as int, r.y as int, r.width as int, t), c),
            paint_of(rect_of(r.x as int, r.y + r.height - t, r.width as int, t), c),
            paint_of(rect_of(r.x as int, r.y as int, t, r.height as int), c),
            paint_of(rect_of(r.x + r.width - t, r.y as int, t, r.height as int), c),
        ]
    }
}

/// A rect whose edges stay far inside the `i64` range.
pub open spec fn modest_rect(r: Rect) -> bool {
    -0x100_0000_0000 <= r.x <= 0x100_0000_0000 && -0x100_0000_0000 <= r.y <= 0x100_0000_0000
        && 0 <= r.width <= 0x100_0000_0000 && 0 <= r.height <= 0x100_0000_0000
}

impl Canvas {
    fn fill_step(&mut self, r: Rect, c: Rgba)
        requires
            old(self).wf(),
        ensures
            drawn(*final(self), *old(self), seq![paint_of(r, c)]),
    {
        self.fill_rect(r, c);
        proof {
            assert forall|x: int, y: int| #[trigger] self.inside(x, y) implies
                self.at(x, y) == paint_over(seq![paint_of(r, c)], x, y, old(self).at(x, y)) by {
                let one = seq![paint_of(r, c)];
                assert(one.drop_last() =~= Seq::<Paint>::empty());
                assert(one.last() == paint_of(r, c));
                assert(paint_over(one.drop_last(), x, y, old(self).at(x, y)) == old(self).at(x, y));
            }
        }
    }

    /// Draws the edges of a rect.
    pub fn stroke_rect(&mut self, r: Rect, thickness: i64, c: Rgba)
        requires
            old(self).wf(),
            modest_rect(r),
        ensures
            drawn(*final(self), *old(self), stroke_paints(r, thickness as int, c)),
    {
        if r.width <= 0 || r.height <= 0 || thickness <= 0 {
            proof { lemma_drawn_none(*self); }
            return;
        }
        let hw: i64 = if r.width / 2 > 1 { r.width / 2 } else { 1 };
        let hh: i64 = if r.height / 2 > 1 { r.height / 2 } else { 1 };
        let t0: i64 = if thickness < hw { thickness } else { hw };
        let t: i64 = if t0 < hh { t0 } else { hh };
        let ghost c0 = *self;
        let r1 = Rect::new(r.x, r.y, r.width, t);
        self.fill_step(r1, c);
        let ghost c1 = *self;
        let r2 = Rect::new(r.x, r.y + r.height - t, r.width, t);
        self.fill_step(r2, c);
        let ghost c2 = *self;
        let r3 = Rect::new(r.x, r.y, t, r.height);
        self.fill_step(r3, c);
        let ghost c3 = *self;
        let r4 = Rect::new(r.x + r.width - t, r.y, t, r.height);
        self.fill_step(r4, c);
        proof {
            lemma_drawn_trans(c0, c1, c2, seq![paint_of(r1, c)], seq![paint_of(r2, c)]);
            lemma_drawn_trans(c0, c2, c3, seq![paint_of(r1, c)] + seq![paint_of(r2, c)], seq![paint_of(r3, c)]);
            lemma_drawn_trans(c0, c3, *self, seq![paint_of(r1, c)] + seq![paint_of(r2, c)] + seq![paint_of(r3, c)],
                seq![paint_of(r4, c)]);
            assert(seq![paint_of(r1, c)] + seq![paint_of(r2, c)] + seq![paint_of(r3, c)] + seq![paint_of(r4, c)]
                =~= stroke_paints(r, thickness as int, c));
        }
    }
}


/// The 5x7 glyph of a character, case-blind: seven rows, the most significant
/// of a row's five bits the leftmost column.
pub open spec fn glyph(ch: char) -> Option<Seq<u8>> {
    match lower_char(ch) {
        'b' => Some(seq![16u8, 16, 30, 17, 17, 30, 0]),
        'g' => Some(seq![0u8, 15, 17, 15, 1, 17, 14]),
        'n' => Some(seq![0u8, 0, 30, 17, 17, 17, 0]),
        'q' => Some(seq![0u8, 14, 17, 17, 15, 1, 1]),
        'r' => Some(seq![0u8, 0, 22, 25, 16, 16, 0]),
        't' => Some(seq![8u8, 8, 30, 8, 8, 6, 0]),
        'v' => Some(seq![0u8, 0, 17, 17, 17, 10, 4]),
        'x' => Some(seq![0u8, 0, 17, 10, 4, 10, 17]),
        'y' => Some(seq![0u8, 17, 17, 15, 1, 17, 14]),
        'z' => Some(seq![0u8, 0, 31, 2, 4, 8, 31]),
        ';' => Some(seq![0u8, 6, 6, 0, 6, 4, 8]),
        '/' => Some(seq![1u8, 2, 2, 4, 8, 8, 16]),
        'a' => Some(seq![0u8, 14, 1, 15, 17, 15, 0]),
        'c' => Some(seq![0u8, 14, 17, 16, 17, 14, 0]),
        'd' => Some(seq![1u8, 1, 13, 19, 17, 15, 0]),
        'e' => Some(seq![0u8, 14, 17, 31, 16, 15, 0]),
        'f' => Some(seq![6u8, 9, 8, 28, 8, 8, 8]),
        'h' => Some(seq![16u8, 16, 22, 25, 17, 17, 0]),
        'i' => Some(seq![4u8, 0, 12, 4, 4, 14, 0]),
        'j' => Some(seq![2u8, 0, 6, 2, 2, 18, 12]),
        'k' => Some(seq![16u8, 16, 18, 20, 24, 20, 18]),
        'l' => Some(seq![12u8, 4, 4, 4, 4, 14, 0]),
        'm' => Some(seq![0u8, 0, 26, 21, 21, 21, 0]),
        'o' => Some(seq![0u8, 14, 17, 17, 17, 14, 0]),
        'p' => Some(seq![0u8, 14, 17, 30, 16, 16, 16]),
        's' => Some(seq![0u8, 15, 16, 14, 1, 30, 0]),
        'u' => Some(seq![0u8, 17, 17, 17, 19, 13, 0]),
        'w' => Some(seq![0u8, 17, 17, 21, 21, 10, 0]),
        ',' => Some(seq![0u8, 0, 0, 0, 6, 4, 8]),
        '.' => Some(seq![0u8, 0, 0, 0, 0, 6, 6]),
        ' ' => Some(seq![0u8, 0, 0, 0, 0, 0, 0]),
        _ => None,
    }
}

/// 5x7 glyph rows, most significant bit is the leftmost column.
pub fn glyph_rows(ch: char) -> (r: Option<[u8; 7]>)
    ensures
        r is Some <==> glyph(ch) is Some,
        r matches Some(a) ==> a@ == glyph(ch)->0,
{
    let rows: [u8; 7] = match lower_char_exec(ch) {
        'b' => [16u8, 16, 30, 17, 17, 30, 0],
        'g' => [0u8, 15, 17, 15, 1, 17, 14],
        'n' => [0u8, 0, 30, 17, 17, 17, 0],
        'q' => [0u8, 14, 17, 17, 15, 1, 1],
        'r' => [0u8, 0, 22, 25, 16, 16, 0],
        't' => [8u8, 8, 30, 8, 8, 6, 0],
        'v' => [0u8, 0, 17, 17, 17, 10, 4],
        'x' => [0u8, 0, 17, 10, 4, 10, 17],
        'y' => [0u8, 17, 17, 15, 1, 17, 14],
        'z' => [0u8, 0, 31, 2, 4, 8, 31],
        ';' => [0u8, 6, 6, 0, 6, 4, 8],
        '/' => [1u8, 2, 2, 4, 8, 8, 16],
        'a' => [0u8, 14, 1, 15, 17, 15, 0],
        'c' => [0u8, 14, 17, 16, 17, 14, 0],
        'd' => [1u8, 1, 13, 19, 17, 15, 0],
        'e' => [0u8, 14, 17, 31, 16, 15, 0],
        'f' => [6u8, 9, 8, 28, 8, 8, 8],
        'h' => [16u8, 16, 22, 25, 17, 17, 0],
        'i' => [4u8, 0, 12, 4, 4, 14, 0],
        'j' => [2u8, 0, 6, 2, 2, 18, 12],
        'k' => [16u8, 16, 18, 20, 24, 20, 18],
        'l' => [12u8, 4, 4, 4, 4, 14, 0],
        'm' => [0u8, 0, 26, 21, 21, 21, 0],
        'o' => [0u8, 14, 17, 17, 17, 14, 0],
        'p' => [0u8, 14, 17, 30, 16, 16, 16],
        's' => [0u8, 15, 16, 14, 1, 30, 0],
        'u' => [0u8, 17, 17, 17, 19, 13, 0],
        'w' => [0u8, 17, 17, 21, 21, 10, 0],
        ',' => [0u8, 0, 0, 0, 6, 4, 8],
        '.' => [0u8, 0, 0, 0, 0, 6, 6],
        ' ' => [0u8, 0, 0, 0, 0, 0, 0],
        _ => return None,
    };
    proof {
        assert(rows@ =~= glyph(ch)->0);
    }
    Some(rows)
}

/// Whether column `col` (0 leftmost) of a glyph row is lit.
pub open spec fn lit(row: u8, col: int) -> bool {
    (row as int / column_weight(col)) % 2 == 1
}

pub open spec fn column_weight(col: int) -> int {
    if col == 0 { 16 } else if col == 1 { 8 } else if col == 2 { 4 } else if col == 3 { 2 } else { 1 }
}

/// The squares of the first `n` columns of glyph row `r`.
pub open spec fn row_paints(rows: Seq<u8>, r: int, n: int, px: int, py: int, s: int, c: Rgba) -> Seq<Paint>
    decreases n,
{
    if n <= 0 {
        Seq::empty()
    } else {
        row_paints(rows, r, n - 1, px, py, s, c) + if lit(rows[r], n - 1) {
            seq![paint_of(rect_of(px + (n - 1) * s, py + r * s, s, s), c)]
        } else {
            Seq::empty()
        }
    }
}

/// The squares of the first `n` rows of a glyph drawn at (`px`, `py`), `s` pixels a square.
pub open spec fn glyph_paints(rows: Seq<u8>, n: int, px: int, py: int, s: int, c: Rgba) -> Seq<Paint>
    decreases n,
{
    if n <= 0 {
        Seq::empty()
    } else {
        glyph_paints(rows, n - 1, px, py, s, c) + row_paints(rows, n - 1, GLYPH_W as int, px, py, s, c)
    }
}

pub open spec fn char_paints(ch: char, px: int, py: int, s: int, c: Rgba) -> Seq<Paint> {
    match glyph(ch) {
        Some(rows) => glyph_paints(rows, GLYPH_H as int, px, py, s, c),
        None => Seq::empty(),
    }
}

/// Characters drawn left to right from `pen_x`, one glyph and a gap apart.
pub open spec fn text_paints(chars: Seq<char>, pen_x: int, pen_y: int, s: int, c: Rgba) -> Seq<Paint>
    decreases chars.len(),
{
    if chars.len() == 0 {
        Seq::empty()
    } else {
        char_paints(chars[0], pen_x, pen_y, s, c) + text_paints(chars.drop_first(), pen_x + (GLYPH_W + 1) * s, pen_y, s, c)
    }
}

/// A label centred on an anchor.
pub open spec fn label_paints(chars: Seq<char>, ax: int, ay: int, s: int, c: Rgba) -> Seq<Paint> {
    let tw = max_int(chars.len() * (GLYPH_W + 1) - 1, 0) * s;
    let th = GLYPH_H * s;
    text_paints(chars, ax - tw / 2, ay - th / 2, s, c)
}

/// Whether glyph column `col` of a row is lit, read from the row's bits.
fn lit_exec(row: u8, col: i64) -> (b: bool)
    requires
        0 <= col < 5,
    ensures
        b == lit(row, col as int),
{
    let w: u8 = if col == 0 { 16 } else if col == 1 { 8 } else if col == 2 { 4 } else if col == 3 { 2 } else { 1 };
    (row / w) % 2 == 1
}

impl Canvas {
    fn draw_glyph(&mut self, rows: &[u8; 7], px: i64, py: i64, s: i64, c: Rgba)
        requires
            old(self).wf(),
            1 <= s <= 0x1_0000_0000,
            -0x1_0000_0000_0000 <= px <= 0x1_0000_0000_0000,
            -0x1_0000_0000_0000 <= py <= 0x1_0000_0000_0000,
        ensures
            drawn(*final(self), *old(self), glyph_paints(rows@, GLYPH_H as int, px as int, py as int, s as int, c)),
    {
        let ghost start = *self;
        proof { lemma_drawn_none(*self); }
        let mut r: i64 = 0;
        while r < GLYPH_H
            invariant
                0 <= r <= GLYPH_H,
                1 <= s <= 0x1_0000_0000,
                -0x1_0000_0000_0000 <= px <= 0x1_0000_0000_0000,
                -0x1_0000_0000_0000 <= py <= 0x1_0000_0000_0000,
                drawn(*self, start, glyph_paints(rows@, r as int, px as int, py as int, s as int, c)),
            decreases GLYPH_H - r,
        {
            let ghost row_start = *self;
            proof { lemma_drawn_none(*self); }
            assert(r * s <= 7 * 0x1_0000_0000) by (nonlinear_arith)
                requires
                    0 <= r < 7,
                    1 <= s <= 0x1_0000_0000,
            ;
            let y: i64 = py + r * s;
            let mut col: i64 = 0;
            while col < GLYPH_W
                invariant
                    0 <= r < GLYPH_H,
                    0 <= col <= GLYPH_W,
                    1 <= s <= 0x1_0000_0000,
                    -0x1_0000_0000_0000 <= px <= 0x1_0000_0000_0000,
                    y == py + r * s,
                    drawn(row_start, start, glyph_paints(rows@, r as int, px as int, py as int, s as int, c)),
                    drawn(*self, row_start, row_paints(rows@, r as int, col as int, px as int, py as int, s as int, c)),
                decreases GLYPH_W - col,
            {
                let ghost before = *self;
                let ghost done = row_paints(rows@, r as int, col as int, px as int, py as int, s as int, c);
                if lit_exec(rows[r as usize], col) {
                    assert(col * s <= 5 * 0x1_0000_0000) by (nonlinear_arith)
                        requires
                            0 <= col < 5,
                            1 <= s <= 0x1_0000_0000,
                    ;
                    let sq = Rect::new(px + col * s, y, s, s);
                    self.fill_step(sq, c);
                    proof {
                        lemma_drawn_trans(row_start, before, *self, done, seq![paint_of(sq, c)]);
                        assert(done + seq![paint_of(sq, c)] =~= row_paints(rows@, r as int, col + 1, px as int, py as int, s as int, c));
                    }
                } else {
                    proof {
                        assert(done =~= row_paints(rows@, r as int, col + 1, px as int, py as int, s as int, c));
                    }
                }
                col = col + 1;
            }
            proof {
                lemma_drawn_trans(start, row_start, *self, glyph_paints(rows@, r as int, px as int, py as int, s as int, c),
                    row_paints(rows@, r as int, GLYPH_W as int, px as int, py as int, s as int, c));
            }
            r = r + 1;
        }
    }

    /// Draws characters left to right from (`x0`, `y0`); characters without a glyph leave a gap.
    fn draw_text(&mut self, chars: &Vec<char>, x0: i64, y0: i64, s: i64, c: Rgba)
        requires
            old(self).wf(),
            1 <= s <= 0x1_0000_0000,
            chars@.len() * s <= 0x1_0000_0000,
            -0x4_0000_0000 <= x0 <= 0x4_0000_0000,
            -0x4_0000_0000 <= y0 <= 0x4_0000_0000,
        ensures
            drawn(*final(self), *old(self), text_paints(chars@, x0 as int, y0 as int, s as int, c)),
    {
        let ghost start = *self;
        proof { lemma_drawn_none(*self); }
        let step: i64 = (GLYPH_W + 1) * s;
        let mut pen: i64 = x0;
        let mut i: usize = 0;
        let ghost mut done: Seq<Paint> = Seq::empty();
        proof {
            assert(chars@.skip(0) =~= chars@);
            assert(done + text_paints(chars@, x0 as int, y0 as int, s as int, c)
                =~= text_paints(chars@, x0 as int, y0 as int, s as int, c));
        }
        while i < chars.len()
            invariant
                i <= chars@.len(),
                1 <= s <= 0x1_0000_0000,
                chars@.len() * s <= 0x1_0000_0000,
                -0x4_0000_0000 <= x0 <= 0x4_0000_0000,
                -0x4_0000_0000 <= y0 <= 0x4_0000_0000,
                step == 6 * s,
                pen == x0 + i * step,
                drawn(*self, start, done),
                done + text_paints(chars@.skip(i as int), pen as int, y0 as int, s as int, c)
                    == text_paints(chars@, x0 as int, y0 as int, s as int, c),
            decreases chars@.len() - i,
        {
            assert(i * step <= 6 * 0x1_0000_0000) by (nonlinear_arith)
                requires
                    i < chars@.len(),
                    chars@.len() * s <= 0x1_0000_0000,
                    step == 6 * s,
                    1 <= s,
            ;
            let ghost before = *self;
            let ghost rest = chars@.skip(i as int);
            let ch = chars[i];
            let ghost cp = char_paints(ch, pen as int, y0 as int, s as int, c);
            match glyph_rows(ch) {
                Some(rows) => {
                    self.draw_glyph(&rows, pen, y0, s, c);
                }
                None => {
                    proof { lemma_drawn_none(*self); }
                }
            }
            proof {
                lemma_drawn_trans(start, before, *self, done, cp);
                assert(rest[0] == ch);
                assert(rest.drop_first() =~= chars@.skip(i + 1));
                assert(done + cp + text_paints(chars@.skip(i + 1), pen + step, y0 as int, s as int, c)
                    =~= done + text_paints(rest, pen as int, y0 as int, s as int, c));
                done = done + cp;
            }
            assert((i + 1) * step == i * step + step) by (nonlinear_arith);
            pen = pen + step;
            i = i + 1;
        }
        proof {
            assert(chars@.skip(chars@.len() as int) =~= Seq::<char>::empty());
            assert(done + Seq::<Paint>::empty() =~= done);
        }
    }
}


/// Smallest left and top edges and largest right and bottom edges of the cells.
pub open spec fn extent(cells: Seq<CellView>) -> (int, int, int, int)
    decreases cells.len(),
{
    if cells.len() == 0 {
        (0, 0, 0, 0)
    } else if cells.len() == 1 {
        let r = cells[0].0;
        (r.x as int, r.y as int, r.x + r.width, r.y + r.height)
    } else {
        let (a, b, c, d) = extent(cells.drop_last());
        let r = cells.last().0;
        (min_int(a, r.x as int), min_int(b, r.y as int), max_int(c, r.x + r.width), max_int(d, r.y + r.height))
    }
}

/// The rect that covers every cell.
pub open spec fn extent_rect(cells: Seq<CellView>) -> Rect {
    let (a, b, c, d) = extent(cells);
    rect_of(a, b, c - a, d - b)
}

/// Every cell has a non-negative size, and its right and bottom edges fit in `i64`.
pub open spec fn sized_cells(cells: Seq<CellView>) -> bool {
    forall|i: int| 0 <= i < cells.len() ==> {
        let r = #[trigger] cells[i].0;
        &&& 0 <= r.width && 0 <= r.height
        &&& r.x + r.width <= i64::MAX && r.y + r.height <= i64::MAX
    }
}

/// The width and height of the rect covering the cells fit in `i64`.
pub open spec fn extent_fits(cells: Seq<CellView>) -> bool {
    let (a, b, c, d) = extent(cells);
    c - a <= i64::MAX && d - b <= i64::MAX
}

pub proof fn lemma_extent(cells: Seq<CellView>)
    requires
        cells.len() > 0,
        sized_cells(cells),
    ensures
        ({
            let (a, b, c, d) = extent(cells);
            &&& i64::MIN <= a <= i64::MAX && i64::MIN <= b <= i64::MAX
            &&& i64::MIN <= c <= i64::MAX && i64::MIN <= d <= i64::MAX
            &&& a <= c && b <= d
            &&& forall|i: int| 0 <= i < cells.len() ==> {
                let r = #[trigger] cells[i].0;
                a <= r.x && b <= r.y && r.x + r.width <= c && r.y + r.height <= d
            }
        }),
    decreases cells.len(),
{
    if cells.len() > 1 {
        let init = cells.drop_last();
        assert(sized_cells(init)) by {
            assert forall|i: int| 0 <= i < init.len() implies {
                let r = #[trigger] init[i].0;
                &&& 0 <= r.width && 0 <= r.height
                &&& r.x + r.width <= i64::MAX && r.y + r.height <= i64::MAX
            } by {
                assert(init[i] == cells[i]);
            }
        }
        lemma_extent(init);
        let (a, b, c, d) = extent(cells);
        let last = cells[cells.len() - 1].0;
        assert forall|i: int| 0 <= i < cells.len() implies {
            let r = #[trigger] cells[i].0;
            a <= r.x && b <= r.y && r.x + r.width <= c && r.y + r.height <= d
        } by {
            if i < cells.len() - 1 {
                assert(init[i] == cells[i]);
            }
        }
    } else {
        let first = cells[0].0;
    }
}

/// The covering rect lies inside any box that holds every cell.
proof fn lemma_extent_within(cells: Seq<CellView>, lx: int, ly: int, hx: int, hy: int)
    requires
        cells.len() > 0,
        forall|i: int| 0 <= i < cells.len() ==> {
            let r = #[trigger] cells[i].0;
            lx <= r.x && ly <= r.y && r.x + r.width <= hx && r.y + r.height <= hy
        },
    ensures
        ({
            let (a, b, c, d) = extent(cells);
            lx <= a && ly <= b && c <= hx && d <= hy
        }),
    decreases cells.len(),
{
    if cells.len() > 1 {
        let init = cells.drop_last();
        assert forall|i: int| 0 <= i < init.len() implies {
            let r = #[trigger] init[i].0;
            lx <= r.x && ly <= r.y && r.x + r.width <= hx && r.y + r.height <= hy
        } by {
            assert(init[i] == cells[i]);
        }
        lemma_extent_within(init, lx, ly, hx, hy);
        let last = cells[cells.len() - 1].0;
    } else {
        let first = cells[0].0;
    }
}

/// The edges of the covering rect: left, top, right, bottom.
fn extent_exec(frame: &OverlayFrame) -> (e: (i64, i64, i64, i64))
    requires
        frame@.cells.len() > 0,
        sized_cells(frame@.cells),
    ensures
        (e.0 as int, e.1 as int, e.2 as int, e.3 as int) == extent(frame@.cells),
{
    let n = frame.cells.len();
    let first = frame.cells[0].rect;
    proof {
        assert(frame@.cells[0].0 == first);
        assert(frame@.cells.subrange(0, 1).len() == 1);
        assert(frame@.cells.subrange(0, 1)[0] == frame@.cells[0]);
    }
    let mut x: i64 = first.x;
    let mut y: i64 = first.y;
    let mut right: i64 = first.x + first.width;
    let mut bottom: i64 = first.y + first.height;
    let mut i: usize = 1;
    while i < n
        invariant
            1 <= i <= n,
            n == frame@.cells.len(),
            sized_cells(frame@.cells),
            (x as int, y as int, right as int, bottom as int) == extent(frame@.cells.subrange(0, i as int)),
        decreases n - i,
    {
        let r = frame.cells[i].rect;
        proof {
            assert(frame@.cells[i as int].0 == r);
        }
        if r.x < x {
            x = r.x;
        }
        if r.y < y {
            y = r.y;
        }
        if r.x + r.width > right {
            right = r.x + r.width;
        }
        if r.y + r.height > bottom {
            bottom = r.y + r.height;
        }
        proof {
            let sub = frame@.cells.subrange(0, i + 1);
            assert(sub.drop_last() =~= frame@.cells.subrange(0, i as int));
            assert(sub.last() == frame@.cells[i as int]);
        }
        i = i + 1;
    }
    proof {
        assert(frame@.cells.subrange(0, n as int) =~= frame@.cells);
    }
    (x, y, right, bottom)
}

/// Smallest rect covering every cell.
pub fn frame_bounds(frame: &OverlayFrame) -> (r: Option<Rect>)
    requires
        sized_cells(frame@.cells),
        extent_fits(frame@.cells),
    ensures
        r == if frame@.cells.len() == 0 { None } else { Some(extent_rect(frame@.cells)) },
{
    if frame.cells.len() == 0 {
        return None;
    }
    let (x, y, right, bottom) = extent_exec(frame);
    proof {
        lemma_extent(frame@.cells);
    }
    Some(Rect::new(x, y, right - x, bottom - y))
}

/// Where a label is centred inside a cell.
pub fn label_anchor(rect: Rect) -> (c: (i64, i64))
    requires
        fits_i64(rect.spec_center().0),
        fits_i64(rect.spec_center().1),
    ensures
        c.0 == rect.spec_center().0,
        c.1 == rect.spec_center().1,
{
    rect.center()
}

/// Width of a label of `n` characters at the default glyph scale.
pub open spec fn text_width(n: int) -> int {
    if n == 0 { 0 } else { (n * (GLYPH_W + 1) - 1) * GLYPH_SCALE }
}

/// Pixel size of a label at the default glyph scale.
pub fn text_size(text: &str) -> (r: (i64, i64))
    requires
        text_width(text@.len() as int) <= i64::MAX,
    ensures
        r.0 == text_width(text@.len() as int),
        r.1 == GLYPH_H * GLYPH_SCALE,
{
    let n = text.unicode_len();
    if n == 0 {
        return (0, GLYPH_H * GLYPH_SCALE);
    }
    assert(n <= i64::MAX / 6) by {
        assert((n * 6 - 1) * 3 <= i64::MAX);
    }
    let chars: i64 = n as i64;
    assert(chars == text@.len());
    let w: i64 = (chars * 6 - 1) * 3;
    assert(w == (chars * (GLYPH_W + 1) - 1) * GLYPH_SCALE);
    (w, GLYPH_H * GLYPH_SCALE)
}

/// A rendered overlay image plus where it belongs on screen.
#[derive(Debug, PartialEq, Eq)]
pub struct RenderTarget {
    pub origin: (i64, i64),
    pub width: u32,
    pub height: u32,
    /// Premultiplied BGRA, top-down, `width * height * 4` bytes.
    pub pixels: Vec<u8>,
}

impl RenderTarget {
    /// Pixel at screen coordinates, if the point is inside the image.
    pub fn pixel(&self, x: i64, y: i64) -> (r: Option<[u8; 4]>)
        ensures
            ({
                let px = x - self.origin.0;
                let py = y - self.origin.1;
                &&& r is Some <==> (0 <= px < self.width && 0 <= py < self.height
                    && offset(self.width as int, px, py) + 4 <= self.pixels@.len())
                &&& r matches Some(a) ==> (a[0], a[1], a[2], a[3]) == pixel_at(self.pixels@, self.width as int, px, py)
            }),
    {
        let px: i128 = x as i128 - self.origin.0 as i128;
        let py: i128 = y as i128 - self.origin.1 as i128;
        if px < 0 || py < 0 || px >= self.width as i128 || py >= self.height as i128 {
            return None;
        }
        assert(py * self.width <= 0xffff_ffff * 0xffff_ffff) by (nonlinear_arith)
            requires
                0 <= py < self.width + 0x1_0000_0000,
                py <= 0xffff_ffff,
                self.width <= 0xffff_ffff,
        ;
        let o: i128 = (py * (self.width as i128) + px) * 4;
        if o + 4 > self.pixels.len() as i128 {
            return None;
        }
        let i = o as usize;
        Some([self.pixels[i], self.pixels[i + 1], self.pixels[i + 2], self.pixels[i + 3]])
    }
}

/// The marker's cross arms, `n` steps out from the centre.
pub open spec fn arm_paints(x: int, y: int, n: int, c: Rgba) -> Seq<Paint>
    decreases n,
{
    if n <= 0 {
        Seq::empty()
    } else {
        arm_paints(x, y, n - 1, c) + seq![
            paint_of(rect_of(x + n, y, 1, 1), c),
            paint_of(rect_of(x - n, y, 1, 1), c),
            paint_of(rect_of(x, y + n, 1, 1), c),
            paint_of(rect_of(x, y - n, 1, 1), c),
        ]
    }
}

/// The pointer marker: a cross with a small box at its centre.
pub open spec fn pointer_paints(x: int, y: int, c: Rgba) -> Seq<Paint> {
    arm_paints(x, y, POINTER_ARM as int, c) + seq![paint_of(rect_of(x - 2, y - 2, 5, 5), c)]
}

impl Canvas {
    fn draw_pointer_with(&mut self, x: i64, y: i64, c: Rgba)
        requires
            old(self).wf(),
            i64::MIN + POINTER_ARM <= x <= i64::MAX - POINTER_ARM,
            i64::MIN + POINTER_ARM <= y <= i64::MAX - POINTER_ARM,
        ensures
            drawn(*final(self), *old(self), pointer_paints(x as int, y as int, c)),
    {
        let ghost start = *self;
        proof { lemma_drawn_none(*self); }
        let mut step: i64 = 1;
        while step <= POINTER_ARM
            invariant
                1 <= step <= POINTER_ARM + 1,
                i64::MIN + POINTER_ARM <= x <= i64::MAX - POINTER_ARM,
                i64::MIN + POINTER_ARM <= y <= i64::MAX - POINTER_ARM,
                drawn(*self, start, arm_paints(x as int, y as int, step - 1, c)),
            decreases POINTER_ARM + 1 - step,
        {
            let ghost c0 = *self;
            let r1 = Rect::new(x + step, y, 1, 1);
            let r2 = Rect::new(x - step, y, 1, 1);
            let r3 = Rect::new(x, y + step, 1, 1);
            let r4 = Rect::new(x, y - step, 1, 1);
            self.fill_step(r1, c);
            let ghost c1 = *self;
            self.fill_step(r2, c);
            let ghost c2 = *self;
            self.fill_step(r3, c);
            let ghost c3 = *self;
            self.fill_step(r4, c);
            proof {
                let a = arm_paints(x as int, y as int, step - 1, c);
                lemma_drawn_trans(start, c0, c1, a, seq![paint_of(r1, c)]);
                lemma_drawn_trans(start, c1, c2, a + seq![paint_of(r1, c)], seq![paint_of(r2, c)]);
                lemma_drawn_trans(start, c2, c3, a + seq![paint_of(r1, c)] + seq![paint_of(r2, c)], seq![paint_of(r3, c)]);
                lemma_drawn_trans(start, c3, *self, a + seq![paint_of(r1, c)] + seq![paint_of(r2, c)]
                    + seq![paint_of(r3, c)], seq![paint_of(r4, c)]);
                assert(a + seq![paint_of(r1, c)] + seq![paint_of(r2, c)] + seq![paint_of(r3, c)] + seq![paint_of(r4, c)]
                    =~= arm_paints(x as int, y as int, step as int, c));
            }
            step = step + 1;
        }
        let ghost c4 = *self;
        let boxr = Rect::new(x - 2, y - 2, 5, 5);
        self.fill_step(boxr, c);
        proof {
            lemma_drawn_trans(start, c4, *self, arm_paints(x as int, y as int, POINTER_ARM as int, c), seq![paint_of(boxr, c)]);
        }
    }

    /// Draws a label centred on (`ax`, `ay`) with `s` pixels per glyph square.
    fn draw_label(&mut self, chars: &Vec<char>, ax: i64, ay: i64, s: i64, c: Rgba)
        requires
            old(self).wf(),
            1 <= s,
            chars@.len() * 6 * s <= 0x1_0000_0000,
            -0x2_0000_0000 <= ax <= 0x2_0000_0000,
            -0x2_0000_0000 <= ay <= 0x2_0000_0000,
            7 * s <= 0x1_0000_0000,
        ensures
            drawn(*final(self), *old(self), label_paints(chars@, ax as int, ay as int, s as int, c)),
    {
        let n = chars.len();
        assert(n * 6 <= n * 6 * s && n * s <= n * 6 * s) by (nonlinear_arith)
            requires
                1 <= s,
                0 <= n,
        ;
        let n64: i64 = n as i64;
        let span: i64 = n64 * (GLYPH_W + 1) - 1;
        assert(span * s <= n * 6 * s) by (nonlinear_arith)
            requires
                span == n * 6 - 1,
                1 <= s,
        ;
        let tw: i64 = if span > 0 { span * s } else { 0 };
        let th: i64 = GLYPH_H * s;
        proof {
            assert(max_int(chars@.len() * (GLYPH_W + 1) - 1, 0) == if span > 0 { span as int } else { 0 });
        }
        self.draw_text(chars, ax - tw / 2, ay - th / 2, s, c);
    }
}


/// A cell's rect in image coordinates.
pub open spec fn local_rect(r: Rect, ox: int, oy: int) -> Rect {
    rect_of(r.x - ox, r.y - oy, r.width as int, r.height as int)
}

/// The panel colour of a cell: two-character context cells shade from left
/// to right across the image, others take the theme's panel.
pub open spec fn cell_panel(l: Rect, n: int, w: int, t: OverlayTheme) -> Rgba {
    if n == 2 {
        let blend = (l.x * 255) / w;
        premul(((160 - blend / 3) as u8, (140 + blend / 5) as u8, (80 + blend / 3) as u8), 85)
    } else {
        premul(t.panel_rgb, t.panel_alpha)
    }
}

/// Width and height of the opaque badge behind a label, clamped to the cell.
pub open spec fn badge_size(l: Rect, n: int) -> (int, int) {
    (max_int(min_int(text_width(n) + 20, l.width - 4), 0),
        max_int(min_int(GLYPH_H * GLYPH_SCALE + 14, l.height - 4), 0))
}

/// Where the label is centred: the cell centre, or the top-left corner of a
/// highlighted cell with room to spare.
pub open spec fn label_centre(l: Rect, n: int, active: bool) -> (int, int) {
    let (bw, bh) = badge_size(l, n);
    if active && l.width > bw + 20 && l.height > bh + 20 {
        (l.x + bw / 2 + 8, l.y + bh / 2 + 8)
    } else {
        (l.x + l.width / 2, l.y + l.height / 2)
    }
}

pub open spec fn badge_rect(l: Rect, n: int, active: bool) -> Rect {
    let (bw, bh) = badge_size(l, n);
    let (cx, cy) = label_centre(l, n, active);
    rect_of(cx - bw / 2, cy - bh / 2, bw, bh)
}

/// Glyph scale for a label: the theme's, shrunk until the label fits the cell.
pub open spec fn margin_scale(l: Rect, n: int, t: OverlayTheme) -> int {
    min_int(min_int(t.glyph_scale as int, max_int(l.height - 4, 0) / (GLYPH_H as int)),
        max_int(l.width - 4, 0) / max_int(n * (GLYPH_W + 1), 1))
}

/// The glyph scale of a label: the theme's scale, shrunk so the text keeps a
/// two-pixel margin in the cell; a one-character label too small for the
/// margin still draws at scale 1 where the bare glyph fits the cell.
pub open spec fn label_scale(l: Rect, n: int, t: OverlayTheme) -> int {
    let s = margin_scale(l, n, t);
    if s <= 0 && n == 1 && t.glyph_scale >= 1 && l.height >= GLYPH_H && l.width >= GLYPH_W {
        1
    } else {
        s
    }
}

/// Panel and border of a cell.
pub open spec fn cell_base_paints(l: Rect, n: int, w: int, active: bool, t: OverlayTheme) -> Seq<Paint> {
    seq![paint_of(l, if active { premul(t.highlight_rgb, t.highlight_alpha) } else { cell_panel(l, n, w, t) })]
        + stroke_paints(l, if active { HIGHLIGHT_BORDER_PX as int } else { t.border_px as int },
            if active { premul(t.highlight_rgb, 255) } else { premul(t.border_rgb, 255) })
}

/// The opaque badge that backs every label but two-character ones.
pub open spec fn cell_badge_paints(l: Rect, n: int, active: bool, t: OverlayTheme) -> Seq<Paint> {
    if n == 2 {
        Seq::empty()
    } else {
        seq![paint_of(badge_rect(l, n, active), premul(PANEL_RGB, 255))]
            + stroke_paints(badge_rect(l, n, active), 1,
                if active { premul(t.highlight_rgb, 255) } else { premul(t.border_rgb, 255) })
    }
}

/// The label, with a shadow for two-character labels and short cells.
pub open spec fn cell_label_paints(l: Rect, label: Seq<char>, active: bool, t: OverlayTheme) -> Seq<Paint> {
    let n = label.len() as int;
    let s = label_scale(l, n, t);
    let (cx, cy) = label_centre(l, n, active);
    if s > 0 {
        (if n == 2 || l.height < 35 {
            label_paints(label, cx + 1, cy + 1, s, premul(t.panel_rgb, 255))
        } else {
            Seq::empty()
        }) + label_paints(label, cx, cy, s, premul(t.label_rgb, 255))
    } else {
        Seq::empty()
    }
}

/// Everything drawn for one cell, in image coordinates.
pub open spec fn cell_paints(cv: CellView, ox: int, oy: int, w: int, t: OverlayTheme, hl: Option<Rect>) -> Seq<Paint> {
    let l = local_rect(cv.0, ox, oy);
    let n = cv.1.len() as int;
    let active = hl == Some(cv.0);
    cell_base_paints(l, n, w, active, t) + cell_badge_paints(l, n, active, t) + cell_label_paints(l, cv.1, active, t)
}

pub open spec fn cells_paints(cells: Seq<CellView>, ox: int, oy: int, w: int, t: OverlayTheme, hl: Option<Rect>) -> Seq<Paint>
    decreases cells.len(),
{
    if cells.len() == 0 {
        Seq::empty()
    } else {
        cells_paints(cells.drop_last(), ox, oy, w, t, hl) + cell_paints(cells.last(), ox, oy, w, t, hl)
    }
}

/// Image width and height of a frame.
pub open spec fn image_size(cells: Seq<CellView>) -> (int, int) {
    let (a, b, c, d) = extent(cells);
    (max_int(c - a, 1), max_int(d - b, 1))
}

/// Everything drawn for a frame, in image coordinates: the cells in order,
/// then the pointer marker.
pub open spec fn frame_paints(f: FrameView, t: OverlayTheme) -> Seq<Paint> {
    let (a, b, c, d) = extent(f.cells);
    let (w, h) = image_size(f.cells);
    cells_paints(f.cells, a, b, w, t, f.highlight) + match f.pointer {
        Some(p) => pointer_paints(p.0 - a, p.1 - b, premul(t.pointer_rgb, 255)),
        None => Seq::empty(),
    }
}

/// Frames the rasterizer takes: cells of non-negative size whose edges fit in
/// `i64`; an image at most 2^30 pixels on a side whose bytes fit in memory;
/// and a pointer whose image coordinates, with the marker's reach around
/// them, fit in `i64`.
pub open spec fn renderable(f: FrameView) -> bool {
    &&& sized_cells(f.cells)
    &&& f.cells.len() > 0 ==> {
        let (a, b, c, d) = extent(f.cells);
        &&& c - a <= 0x4000_0000 && d - b <= 0x4000_0000
        &&& image_size(f.cells).0 * image_size(f.cells).1 * 4 <= usize::MAX
        &&& match f.pointer {
            Some(p) => i64::MIN + POINTER_ARM <= p.0 - a <= i64::MAX - POINTER_ARM
                && i64::MIN + POINTER_ARM <= p.1 - b <= i64::MAX - POINTER_ARM,
            None => true,
        }
    }
}

/// Whether the rasterizer takes the frame.
pub fn is_renderable(frame: &OverlayFrame) -> (b: bool)
    ensures
        b == renderable(frame@),
{
    let n = frame.cells.len();
    let mut i: usize = 0;
    while i < n
        invariant
            i <= n,
            n == frame@.cells.len(),
            forall|j: int| 0 <= j < i ==> {
                let r = #[trigger] frame@.cells[j].0;
                &&& 0 <= r.width && 0 <= r.height
                &&& r.x + r.width <= i64::MAX && r.y + r.height <= i64::MAX
            },
        decreases n - i,
    {
        let r = frame.cells[i].rect;
        proof {
            assert(frame@.cells[i as int].0 == r);
        }
        if r.width < 0 || r.height < 0 || r.x > i64::MAX - r.width || r.y > i64::MAX - r.height {
            return false;
        }
        i = i + 1;
    }
    if n == 0 {
        return true;
    }
    let (a, b, c, d) = extent_exec(frame);
    proof {
        lemma_extent(frame@.cells);
    }
    let span_x: i128 = c as i128 - a as i128;
    let span_y: i128 = d as i128 - b as i128;
    if span_x > 0x4000_0000 || span_y > 0x4000_0000 {
        return false;
    }
    let w: u128 = if span_x < 1 { 1 } else { span_x as u128 };
    let h: u128 = if span_y < 1 { 1 } else { span_y as u128 };
    proof {
        assert(w * h <= 0x4000_0000 * 0x4000_0000) by (nonlinear_arith)
            requires w <= 0x4000_0000, h <= 0x4000_0000;
    }
    if w * h * 4 > usize::MAX as u128 {
        return false;
    }
    match frame.pointer {
        Some(p) => {
            let px: i128 = p.0 as i128 - a as i128;
            let py: i128 = p.1 as i128 - b as i128;
            i64::MIN as i128 + 8 <= px && px <= i64::MAX as i128 - 8
                && i64::MIN as i128 + 8 <= py && py <= i64::MAX as i128 - 8
        },
        None => true,
    }
}

fn min_i64(a: i64, b: i64) -> (r: i64)
    ensures
        r == min_int(a as int, b as int),
{
    if a < b { a } else { b }
}

fn max_i64(a: i64, b: i64) -> (r: i64)
    ensures
        r == max_int(a as int, b as int),
{
    if a > b { a } else { b }
}

fn same_rect(a: &Rect, b: &Rect) -> (r: bool)
    ensures
        r == (*a == *b),
{
    a.x == b.x && a.y == b.y && a.width == b.width && a.height == b.height
}

impl Canvas {
    fn paint_cell_base(&mut self, l: Rect, n: usize, w: i64, active: bool, t: &OverlayTheme)
        requires
            old(self).wf(),
            0 <= l.x <= w,
            0 <= l.y <= 0x8000_0000,
            0 <= l.width <= 0x4000_0000,
            0 <= l.height <= 0x4000_0000,
            1 <= w <= 0x1_0000_0000,
        ensures
            drawn(*final(self), *old(self), cell_base_paints(l, n as int, w as int, active, *t)),
    {
        let ghost c0 = *self;
        let panel = if active {
            premul_exec(t.highlight_rgb, t.highlight_alpha)
        } else if n == 2 {
            assert(l.x * 255 <= w * 255) by (nonlinear_arith)
                requires
                    0 <= l.x <= w,
            ;
            assert((l.x * 255) / (w as int) <= 255) by (nonlinear_arith)
                requires
                    0 <= l.x * 255 <= w * 255,
                    1 <= w,
            ;
            let blend: u8 = ((l.x * 255) / w) as u8;
            premul_exec((160 - blend / 3, 140 + blend / 5, 80 + blend / 3), 85)
        } else {
            premul_exec(t.panel_rgb, t.panel_alpha)
        };
        self.fill_step(l, panel);
        let ghost c1 = *self;
        let thickness: i64 = if active { HIGHLIGHT_BORDER_PX } else { t.border_px };
        let edge = if active { premul_exec(t.highlight_rgb, 255) } else { premul_exec(t.border_rgb, 255) };
        self.stroke_rect(l, thickness, edge);
        proof {
            lemma_drawn_trans(c0, c1, *self, seq![paint_of(l, panel)], stroke_paints(l, thickness as int, edge));
        }
    }

    fn paint_cell_badge(&mut self, l: Rect, n: usize, active: bool, t: &OverlayTheme, badge: Rect)
        requires
            old(self).wf(),
            modest_rect(badge),
            badge == badge_rect(l, n as int, active),
        ensures
            drawn(*final(self), *old(self), cell_badge_paints(l, n as int, active, *t)),
    {
        if n == 2 {
            proof { lemma_drawn_none(*self); }
            return;
        }
        let ghost c0 = *self;
        let fillc = premul_exec(PANEL_RGB, 255);
        self.fill_step(badge, fillc);
        let ghost c1 = *self;
        let edge = if active { premul_exec(t.highlight_rgb, 255) } else { premul_exec(t.border_rgb, 255) };
        self.stroke_rect(badge, 1, edge);
        proof {
            lemma_drawn_trans(c0, c1, *self, seq![paint_of(badge, fillc)], stroke_paints(badge, 1, edge));
        }
    }

    fn paint_cell_label(&mut self, l: Rect, chars: &Vec<char>, active: bool, t: &OverlayTheme,
        s: i64, cx: i64, cy: i64)
        requires
            old(self).wf(),
            0 <= l.width <= 0x4000_0000,
            0 <= l.height <= 0x4000_0000,
            s == label_scale(l, chars@.len() as int, *t),
            (cx as int, cy as int) == label_centre(l, chars@.len() as int, active),
            -0x8000_0000 <= cx <= 0x1_0000_0000,
            -0x8000_0000 <= cy <= 0x1_0000_0000,
        ensures
            drawn(*final(self), *old(self), cell_label_paints(l, chars@, active, *t)),
    {
        let n = chars.len();
        if s <= 0 {
            proof { lemma_drawn_none(*self); }
            return;
        }
        proof {
            if s <= margin_scale(l, n as int, *t) {
                let d = max_int(n * (GLYPH_W + 1), 1);
                let q = max_int(l.width - 4, 0) / d;
                assert(n * 6 * s <= 0x4000_0000) by (nonlinear_arith)
                    requires
                        1 <= s <= q,
                        d == max_int(n * 6, 1),
                        q == max_int(l.width - 4, 0) / d,
                        l.width <= 0x4000_0000,
                        0 <= n,
                ;
                assert(7 * s <= 0x4000_0000) by (nonlinear_arith)
                    requires
                        1 <= s <= max_int(l.height - 4, 0) / 7,
                        l.height <= 0x4000_0000,
                ;
            }
        }
        let ghost c0 = *self;
        let ghost shadow_ops: Seq<Paint> = Seq::empty();
        if n == 2 || l.height < 35 {
            let shade = premul_exec(t.panel_rgb, 255);
            self.draw_label(chars, cx + 1, cy + 1, s, shade);
            proof {
                shadow_ops = label_paints(chars@, cx + 1, cy + 1, s as int, shade);
            }
        } else {
            proof { lemma_drawn_none(*self); }
        }
        let ghost c1 = *self;
        let ink = premul_exec(t.label_rgb, 255);
        self.draw_label(chars, cx, cy, s, ink);
        proof {
            lemma_drawn_trans(c0, c1, *self, shadow_ops, label_paints(chars@, cx as int, cy as int, s as int, ink));
        }
    }

    /// Draws one cell: panel, border, badge and label.
    fn paint_cell(&mut self, cell: &OverlayCell, ox: i64, oy: i64, w: i64, t: &OverlayTheme, hl: Option<Rect>)
        requires
            old(self).wf(),
            0 <= cell.rect.width,
            0 <= cell.rect.height,
            ox <= cell.rect.x,
            oy <= cell.rect.y,
            cell.rect.x + cell.rect.width <= ox + w,
            cell.rect.y + cell.rect.height <= oy + 0x4000_0000,
            1 <= w <= 0x4000_0000,
        ensures
            drawn(*final(self), *old(self), cell_paints(cell@, ox as int, oy as int, w as int, *t, hl)),
    {
        let r = cell.rect;
        let l = Rect::new(r.x - ox, r.y - oy, r.width, r.height);
        let active = match &hl {
            Some(h) => same_rect(h, &r),
            None => false,
        };
        let chars = crate::text::chars_of(cell.label.as_str());
        let n = chars.len();
        let ghost c0 = *self;
        self.paint_cell_base(l, n, w, active, t);
        let ghost c1 = *self;
        // badge geometry
        let bw_cap: i64 = l.width - 4;
        let bw_raw: i64 = if n as u64 > 0x1_0000_0000u64 {
            bw_cap
        } else if n == 0 {
            min_i64(20, bw_cap)
        } else {
            let tw: i64 = ((n as i64) * 6 - 1) * 3;
            min_i64(tw + 20, bw_cap)
        };
        let bw = max_i64(bw_raw, 0);
        let bh = max_i64(min_i64(GLYPH_H * GLYPH_SCALE + 14, l.height - 4), 0);
        proof {
            assert(n > 0x1_0000_0000 ==> text_width(n as int) + 20 > l.width - 4);
            assert(badge_size(l, n as int) == (bw as int, bh as int));
        }
        let (cx, cy) = if active && l.width > bw + 20 && l.height > bh + 20 {
            (l.x + bw / 2 + 8, l.y + bh / 2 + 8)
        } else {
            (l.x + l.width / 2, l.y + l.height / 2)
        };
        let badge = Rect::new(cx - bw / 2, cy - bh / 2, bw, bh);
        self.paint_cell_badge(l, n, active, t, badge);
        let ghost c2 = *self;
        let sh: i64 = max_i64(l.height - 4, 0) / GLYPH_H;
        let sw: i64 = if n as u64 > 0x1_0000_0000u64 {
            0
        } else {
            let d: i64 = max_i64((n as i64) * 6, 1);
            max_i64(l.width - 4, 0) / d
        };
        proof {
            if n > 0x1_0000_0000 {
                assert(max_int(l.width - 4, 0) / max_int(n * (GLYPH_W + 1), 1) == 0) by (nonlinear_arith)
                    requires
                        n > 0x1_0000_0000,
                        0 <= max_int(l.width - 4, 0) <= 0x4000_0000,
                ;
            }
        }
        let fitted: i64 = min_i64(min_i64(t.glyph_scale, sh), sw);
        let s: i64 = if fitted <= 0 && n == 1 && t.glyph_scale >= 1 && l.height >= GLYPH_H && l.width >= GLYPH_W {
            1
        } else {
            fitted
        };
        self.paint_cell_label(l, &chars, active, t, s, cx, cy);
        proof {
            lemma_drawn_trans(c0, c1, c2, cell_base_paints(l, n as int, w as int, active, *t),
                cell_badge_paints(l, n as int, active, *t));
            lemma_drawn_trans(c0, c2, *self, cell_base_paints(l, n as int, w as int, active, *t)
                + cell_badge_paints(l, n as int, active, *t), cell_label_paints(l, chars@, active, *t));
            assert(l == local_rect(cell@.0, ox as int, oy as int));
            assert(active == (hl == Some(cell@.0)));
        }
    }
}

/// Renders the frame with the built-in default theme.
pub fn render_frame(frame: &OverlayFrame) -> (r: Option<RenderTarget>)
    requires
        renderable(frame@),
    ensures
        r is None <==> frame@.cells.len() == 0,
        r matches Some(t) ==> rendered(t, frame@, OverlayTheme::standard()),
{
    render_frame_with_theme(frame, &OverlayTheme::default())
}

/// The image holds the frame painted over transparent pixels.
pub open spec fn rendered(rt: RenderTarget, f: FrameView, t: OverlayTheme) -> bool {
    let (a, b, c, d) = extent(f.cells);
    let (w, h) = image_size(f.cells);
    &&& rt.origin == (a as i64, b as i64)
    &&& rt.width == w
    &&& rt.height == h
    &&& rt.pixels@.len() == w * h * 4
    &&& forall|x: int, y: int| 0 <= x < w && 0 <= y < h ==> #[trigger] pixel_at(rt.pixels@, w, x, y)
        == paint_over(frame_paints(f, t), x, y, (0u8, 0u8, 0u8, 0u8))
}

/// Renders the frame with a caller-supplied theme, or none when the frame has no cells.
pub fn render_frame_with_theme(frame: &OverlayFrame, theme: &OverlayTheme) -> (r: Option<RenderTarget>)
    requires
        renderable(frame@),
    ensures
        r is None <==> frame@.cells.len() == 0,
        r matches Some(t) ==> rendered(t, frame@, *theme),
{
    let bounds = match frame_bounds(frame) {
        Some(b) => b,
        None => return None,
    };
    proof {
        lemma_extent(frame@.cells);
    }
    let width: i64 = max_i64(bounds.width, 1);
    let height: i64 = max_i64(bounds.height, 1);
    let ox = bounds.x;
    let oy = bounds.y;
    let mut canvas = Canvas::blank(width, height);
    let ghost blank = canvas;
    proof { lemma_drawn_none(canvas); }
    let mut i: usize = 0;
    while i < frame.cells.len()
        invariant
            i <= frame@.cells.len(),
            renderable(frame@),
            canvas.wf(),
            blank.wf(),
            ox == extent(frame@.cells).0,
            oy == extent(frame@.cells).1,
            width == image_size(frame@.cells).0,
            height == image_size(frame@.cells).1,
            1 <= width <= 0x4000_0000,
            1 <= height <= 0x4000_0000,
            forall|j: int| 0 <= j < frame@.cells.len() ==> {
                let r = #[trigger] frame@.cells[j].0;
                ox <= r.x && oy <= r.y && r.x + r.width <= ox + width && r.y + r.height <= oy + height
            },
            drawn(canvas, blank, cells_paints(frame@.cells.subrange(0, i as int), ox as int, oy as int,
                width as int, *theme, frame.highlight)),
        decreases frame@.cells.len() - i,
    {
        let ghost before = canvas;
        proof {
            let cur = frame@.cells[i as int].0;
            assert(frame@.cells[i as int] == frame.cells@[i as int]@);
        }
        canvas.paint_cell(&frame.cells[i], ox, oy, width, theme, frame.highlight);
        proof {
            let sub = frame@.cells.subrange(0, i + 1);
            assert(sub.drop_last() =~= frame@.cells.subrange(0, i as int));
            assert(sub.last() == frame@.cells[i as int]);
            lemma_drawn_trans(blank, before, canvas,
                cells_paints(frame@.cells.subrange(0, i as int), ox as int, oy as int, width as int, *theme, frame.highlight),
                cell_paints(frame@.cells[i as int], ox as int, oy as int, width as int, *theme, frame.highlight));
        }
        i = i + 1;
    }
    proof {
        assert(frame@.cells.subrange(0, frame@.cells.len() as int) =~= frame@.cells);
    }
    let ghost cells_done = canvas;
    let ghost cells_ops = cells_paints(frame@.cells, ox as int, oy as int, width as int, *theme, frame.highlight);
    match frame.pointer {
        Some(p) => {
            let mark = premul_exec(theme.pointer_rgb, 255);
            canvas.draw_pointer_with(p.0 - ox, p.1 - oy, mark);
            proof {
                lemma_drawn_trans(blank, cells_done, canvas, cells_ops, pointer_paints(p.0 - ox, p.1 - oy, mark));
            }
        }
        None => {
            proof {
                assert(cells_ops + Seq::<Paint>::empty() =~= cells_ops);
            }
        }
    }
    let rt = RenderTarget { origin: (ox, oy), width: width as u32, height: height as u32, pixels: canvas.pixels };
    proof {
        assert forall|x: int, y: int| 0 <= x < width && 0 <= y < height implies #[trigger] pixel_at(rt.pixels@, width as int, x, y)
            == paint_over(frame_paints(frame@, *theme), x, y, (0u8, 0u8, 0u8, 0u8)) by {
            assert(canvas.inside(x, y));
            assert(blank.inside(x, y));
        }
    }
    Some(rt)
}


/// A glyph's rows packed into one number, five bits a row, the top row first.
pub open spec fn glyph_code(rows: Seq<u8>) -> int {
    ((((((rows[0] as int) * 32 + rows[1]) * 32 + rows[2]) * 32 + rows[3]) * 32 + rows[4]) * 32 + rows[5]) * 32
        + rows[6]
}

/// Distinct label characters get distinct glyphs: two characters that are
/// not the same letter in another case never share a glyph, so no label
/// can be drawn as another.
#[verifier::rlimit(100)]
pub proof fn law_glyphs_tell_characters_apart(a: char, b: char)
    requires
        glyph(a) is Some,
        glyph(b) is Some,
        lower_char(a) != lower_char(b),
    ensures
        glyph(a) != glyph(b),
{
    assert(glyph_code(glyph(a)->0) != glyph_code(glyph(b)->0));
}


/// Every glyph is seven rows of five columns, and every character but the
/// space lights at least one pixel.
pub proof fn law_glyphs_are_five_by_seven(c: char)
    requires
        glyph(c) is Some,
    ensures
        glyph(c)->0.len() == 7,
        forall|r: int| 0 <= r < 7 ==> #[trigger] glyph(c)->0[r] < 32,
        lower_char(c) != ' ' ==> glyph_code(glyph(c)->0) > 0,
{
}

} // verus!
