//! Glyph descriptions and the RGBA canvas glyph images are composited on.
//! Rasterizing outlines from font files happens in the application.

use vstd::prelude::*;

use vstd::arithmetic::div_mod::lemma_fundamental_div_mod_converse;

use crate::text::{is_whitespace, is_ws};

verus! {

pub type Rgb = [u8; 3];

/// One character on screen, with everything that affects how it looks.
#[derive(Debug, Clone, Copy, PartialEq, Eq, Hash)]
pub struct Glyph {
    pub ch: char,
    pub fg: Rgb,
    /// Box behind the glyph (the caret).
    pub bg: Option<Rgb>,
    pub underline: bool,
}

impl Glyph {
    pub open spec fn spec_is_blank(&self) -> bool {
        is_ws(self.ch) && self.bg is None && !self.underline
    }

    /// Whether drawing it would leave no mark.
    pub fn is_blank(&self) -> (b: bool)
        ensures
            b == self.spec_is_blank(),
    {
        is_whitespace(self.ch) && self.bg.is_none() && !self.underline
    }
}

/// A rasterized glyph: RGBA, with transparent padding left of the pen
/// position.
pub struct GlyphImage {
    pub w: u32,
    pub h: u32,
    pub rgba: Vec<u8>,
}

/// Straight-alpha RGBA pixels, row by row.
pub struct Canvas {
    pub w: usize,
    pub h: usize,
    pub px: Vec<u8>,
}

/// Pixel index of byte `j` of an image `w` pixels wide.
pub open spec fn pixel_x(j: int, w: int) -> int {
    (j / 4) % w
}

pub open spec fn pixel_y(j: int, w: int) -> int {
    (j / 4) / w
}

/// `v` clamped into `0..=max`.
pub open spec fn clamp_to(v: i32, max: int) -> int {
    if v < 0 {
        0
    } else if v > max {
        max
    } else {
        v as int
    }
}

/// `old` with every pixel for which `inside` holds painted opaque `c`.
pub open spec fn paint(old: Seq<u8>, w: int, inside: spec_fn(int, int) -> bool, c: Rgb) -> Seq<u8> {
    Seq::new(
        old.len(),
        |j: int|
            if inside(pixel_x(j, w), pixel_y(j, w)) {
                if j % 4 < 3 {
                    c@[j % 4]
                } else {
                    255u8
                }
            } else {
                old[j]
            },
    )
}

/// The rectangle `x0..x1` × `y0..y1`, clamped to a `w`×`h` canvas.
pub open spec fn in_rect(x0: i32, y0: i32, x1: i32, y1: i32, w: int, h: int) -> spec_fn(
    int,
    int,
) -> bool {
    |x: int, y: int|
        clamp_to(x0, w) <= x < clamp_to(x1, w) && clamp_to(y0, h) <= y < clamp_to(y1, h)
}

/// Byte `k` of pixel (`x`, `y`) sits at `(y * w + x) * 4 + k`.
pub proof fn lemma_pixel_index(w: int, h: int, x: int, y: int, k: int)
    requires
        0 <= x < w,
        0 <= y < h,
        0 <= k < 4,
    ensures
        0 <= (y * w + x) * 4 + k < w * h * 4,
        ((y * w + x) * 4 + k) / 4 == y * w + x,
        ((y * w + x) * 4 + k) % 4 == k,
        pixel_x((y * w + x) * 4 + k, w) == x,
        pixel_y((y * w + x) * 4 + k, w) == y,
{
    let p = y * w + x;
    assert(0 <= p < w * h) by (nonlinear_arith)
        requires
            0 <= x < w,
            0 <= y < h,
            p == y * w + x,
    ;
    lemma_fundamental_div_mod_converse(p * 4 + k, 4, p, k);
    lemma_fundamental_div_mod_converse(p, w, y, x);
    assert(0 <= p * 4 + k < w * h * 4) by (nonlinear_arith)
        requires
            0 <= p < w * h,
            0 <= k < 4,
    ;
}

/// Every byte index of a `w`×`h` image is byte `j % 4` of a pixel inside it.
pub proof fn lemma_index_pixel(w: int, h: int, j: int)
    requires
        0 < w,
        0 <= j < w * h * 4,
    ensures
        0 <= pixel_x(j, w) < w,
        0 <= pixel_y(j, w) < h,
        j == (pixel_y(j, w) * w + pixel_x(j, w)) * 4 + j % 4,
{
    let p = j / 4;
    assert(j == p * 4 + j % 4 && 0 <= j % 4 < 4) by (nonlinear_arith)
        requires
            p == j / 4,
            j >= 0,
    ;
    assert(p == (p / w) * w + p % w && 0 <= p % w < w) by (nonlinear_arith)
        requires
            w > 0,
            p >= 0,
    ;
    assert(p < w * h) by (nonlinear_arith)
        requires
            j == p * 4 + j % 4,
            0 <= j % 4 < 4,
            j < w * h * 4,
    ;
    assert(p / w < h) by (nonlinear_arith)
        requires
            p < w * h,
            p >= 0,
            w > 0,
    ;
}

/// "Over" compositing of one channel: `f` at coverage `a` over `d` at
/// alpha `da`, both scaled by 255, rounded.
pub open spec fn over_channel(f: u8, a: u8, d: u8, da: u8) -> u8 {
    let oa = a * 255 + da * (255 - a);
    ((f * a * 255 + d * da * (255 - a) + oa / 2) / oa) as u8
}

/// The alpha that results from compositing coverage `a` over alpha `da`.
pub open spec fn over_alpha(a: u8, da: u8) -> u8 {
    ((a * 255 + da * (255 - a) + 127) / 255) as u8
}

/// The glyph coverage that falls on canvas pixel (`x`, `y`), if any.
pub open spec fn coverage_at(gx: i32, gy: i32, gw: int, gh: int, cov: Seq<u8>, x: int, y: int) -> u8 {
    let row = y - gy;
    let col = x - gx;
    if 0 <= row < gh && 0 <= col < gw {
        cov[row * gw + col]
    } else {
        0
    }
}

/// `old` with `fg` at coverage `cov` composited over every pixel for which
/// `done` holds.
pub open spec fn composite(
    old: Seq<u8>,
    w: int,
    gx: i32,
    gy: i32,
    gw: int,
    gh: int,
    cov: Seq<u8>,
    fg: Rgb,
    done: spec_fn(int, int) -> bool,
) -> Seq<u8> {
    Seq::new(
        old.len(),
        |j: int|
            {
                let x = pixel_x(j, w);
                let y = pixel_y(j, w);
                let a = coverage_at(gx, gy, gw, gh, cov, x, y);
                if done(x, y) && a > 0 {
                    let base = j - j % 4;
                    if j % 4 < 3 {
                        over_channel(fg@[j % 4], a, old[j], old[base + 3])
                    } else {
                        over_alpha(a, old[j])
                    }
                } else {
                    old[j]
                }
            },
    )
}

proof fn lemma_over_bounds(f: u8, a: u8, d: u8, da: u8)
    requires
        a > 0,
    ensures
        a * 255 + da * (255 - a) > 0,
        a * 255 + da * (255 - a) <= 255 * 255,
        (f * a * 255 + d * da * (255 - a) + (a * 255 + da * (255 - a)) / 2) / (a * 255 + da * (255
            - a)) <= 255,
        (a * 255 + da * (255 - a) + 127) / 255 <= 255,
        f * a * 255 + d * da * (255 - a) + (a * 255 + da * (255 - a)) / 2 <= 0xffff_ffff,
{
    let oa = a * 255 + da * (255 - a);
    assert(oa > 0 && oa <= 255 * 255) by (nonlinear_arith)
        requires
            oa == a * 255 + da * (255 - a),
            0 < a <= 255,
            0 <= da <= 255,
    ;
    assert(f * a * 255 + d * da * (255 - a) <= 255 * oa) by (nonlinear_arith)
        requires
            oa == a * 255 + da * (255 - a),
            0 < a <= 255,
            0 <= da <= 255,
            0 <= f <= 255,
            0 <= d <= 255,
    ;
    let num = f * a * 255 + d * da * (255 - a) + oa / 2;
    assert(num / oa <= 255) by (nonlinear_arith)
        requires
            num <= 255 * oa + oa / 2,
            oa > 0,
            num >= 0,
    ;
}

impl Canvas {
    pub open spec fn wf(&self) -> bool {
        self.px@.len() == self.w * self.h * 4
    }

    /// A transparent `w`×`h` canvas.
    pub fn new(w: usize, h: usize) -> (c: Self)
        requires
            w * h * 4 <= usize::MAX,
        ensures
            c.wf(),
            c.w == w,
            c.h == h,
            forall|j: int| 0 <= j < c.px@.len() ==> c.px@[j] == 0,
    {
        let n = w * h * 4;
        let mut px: Vec<u8> = Vec::new();
        let mut i: usize = 0;
        while i < n
            invariant
                i <= n,
                px@.len() == i,
                forall|j: int| 0 <= j < i ==> px@[j] == 0,
            decreases n - i,
        {
            px.push(0);
            i = i + 1;
        }
        Canvas { w, h, px }
    }

    fn clamp_i32(v: i32, max: usize) -> (r: usize)
        requires
            max <= i32::MAX,
        ensures
            r == clamp_to(v, max as int),
    {
        if v < 0 {
            0
        } else if v as usize > max {
            max
        } else {
            v as usize
        }
    }

    /// Fills the rectangle `x0..x1` × `y0..y1`, clipped to the canvas,
    /// with opaque `c`.
    pub fn fill(&mut self, x0: i32, y0: i32, x1: i32, y1: i32, c: Rgb)
        requires
            old(self).wf(),
            old(self).w <= i32::MAX,
            old(self).h <= i32::MAX,
        ensures
            final(self).wf(),
            final(self).w == old(self).w,
            final(self).h == old(self).h,
            final(self).px@ == paint(
                old(self).px@,
                old(self).w as int,
                in_rect(x0, y0, x1, y1, old(self).w as int, old(self).h as int),
                c,
            ),
    {
        let w = self.w;
        let h = self.h;
        let ghost start = self.px@;
        let cx0 = Self::clamp_i32(x0, w);
        let cx1 = Self::clamp_i32(x1, w);
        let cy0 = Self::clamp_i32(y0, h);
        let cy1 = Self::clamp_i32(y1, h);
        let ghost rect = in_rect(x0, y0, x1, y1, w as int, h as int);
        let mut y = cy0;
        while y < cy1
            invariant
                w == self.w,
                h == self.h,
                self.wf(),
                start.len() == self.px@.len(),
                cy0 <= y,
                y <= cy1 || cy1 < cy0,
                cx0 == clamp_to(x0, w as int),
                cx1 == clamp_to(x1, w as int),
                cy0 == clamp_to(y0, h as int),
                cy1 == clamp_to(y1, h as int),
                rect == in_rect(x0, y0, x1, y1, w as int, h as int),
                self.px@ == paint(start, w as int, |px: int, py: int| rect(px, py) && py < y, c),
            decreases cy1 - y,
        {
            let mut x = cx0;
            proof {
                let a = |px: int, py: int| rect(px, py) && py < y;
                let b = |px: int, py: int| rect(px, py) && (py < y || (py == y && px < x));
                assert(paint(start, w as int, a, c) =~= paint(start, w as int, b, c));
            }
            while x < cx1
                invariant
                    w == self.w,
                    h == self.h,
                    self.wf(),
                    start.len() == self.px@.len(),
                    cy0 <= y < cy1,
                    cx0 <= x,
                    x <= cx1 || cx1 < cx0,
                    cx0 == clamp_to(x0, w as int),
                    cx1 == clamp_to(x1, w as int),
                    cy0 == clamp_to(y0, h as int),
                    cy1 == clamp_to(y1, h as int),
                    cy1 <= h,
                    cx1 <= w,
                    rect == in_rect(x0, y0, x1, y1, w as int, h as int),
                    self.px@ == paint(
                        start,
                        w as int,
                        |px: int, py: int| rect(px, py) && (py < y || (py == y && px < x)),
                        c,
                    ),
                decreases cx1 - x,
            {
                proof {
                    lemma_pixel_index(w as int, h as int, x as int, y as int, 0);
                    lemma_pixel_index(w as int, h as int, x as int, y as int, 3);
                }
                let n = self.px.len();
                assert((y * w + x) * 4 + 3 < n);
                assert(y * w <= n);
                let i = (y * w + x) * 4;
                let ghost before = self.px@;
                self.px.set(i, c[0]);
                self.px.set(i + 1, c[1]);
                self.px.set(i + 2, c[2]);
                self.px.set(i + 3, 255);
                proof {
                    let next = |px: int, py: int| rect(px, py) && (py < y || (py == y && px < x + 1));
                    assert forall|j: int| 0 <= j < self.px@.len() implies self.px@[j] == paint(
                        start,
                        w as int,
                        next,
                        c,
                    )[j] by {
                        lemma_index_pixel(w as int, h as int, j);
                        if i <= j < i + 4 {
                            lemma_pixel_index(w as int, h as int, x as int, y as int, j - i);
                        } else {
                            let jx = pixel_x(j, w as int);
                            let jy = pixel_y(j, w as int);
                            assert(!(jx == x && jy == y)) by {
                                if jx == x && jy == y {
                                    lemma_pixel_index(w as int, h as int, x as int, y as int, j % 4);
                                }
                            }
                        }
                    }
                    assert(self.px@ =~= paint(start, w as int, next, c));
                }
                x = x + 1;
            }
            proof {
                let a = |px: int, py: int| rect(px, py) && (py < y || (py == y && px < x));
                let b = |px: int, py: int| rect(px, py) && py < y + 1;
                assert forall|j: int| 0 <= j < self.px@.len() implies paint(start, w as int, a, c)[j]
                    == paint(start, w as int, b, c)[j] by {
                    lemma_index_pixel(w as int, h as int, j);
                }
                assert(paint(start, w as int, a, c) =~= paint(start, w as int, b, c));
            }
            y = y + 1;
        }
        proof {
            let a = |px: int, py: int| rect(px, py) && py < y;
            assert forall|j: int| 0 <= j < self.px@.len() implies paint(start, w as int, a, c)[j]
                == paint(start, w as int, rect, c)[j] by {
                if w > 0 {
                    lemma_index_pixel(w as int, h as int, j);
                }
            }
            assert(paint(start, w as int, a, c) =~= paint(start, w as int, rect, c));
        }
    }
    fn blend(f: u8, a: u8, d: u8, da: u8) -> (v: u8)
        requires
            a > 0,
        ensures
            v == over_channel(f, a, d, da),
    {
        proof {
            lemma_over_bounds(f, a, d, da);
        }
        let (f, a, d, da) = (f as u32, a as u32, d as u32, da as u32);
        assert(da * (255 - a) <= 65025) by (nonlinear_arith)
            requires
                da <= 255,
                a <= 255,
        ;
        let oa = a * 255 + da * (255 - a);
        assert(f * a <= 65025 && d * da <= 65025) by (nonlinear_arith)
            requires
                f <= 255,
                a <= 255,
                d <= 255,
                da <= 255,
        ;
        let fa = f * a;
        let dd = d * da;
        assert(dd * (255 - a) <= 65025 * 255) by (nonlinear_arith)
            requires
                dd <= 65025,
                a <= 255,
        ;
        let num = fa * 255 + dd * (255 - a) + oa / 2;
        (num / oa) as u8
    }

    /// Composites `fg` at the coverage mask `cov` (`gw`×`gh`, row by row)
    /// with its top-left at (`gx`, `gy`) over what is there ("over"
    /// operator); parts outside the canvas are clipped.
    pub fn over(&mut self, gx: i32, gy: i32, gw: usize, gh: usize, cov: &[u8], fg: Rgb)
        requires
            old(self).wf(),
            old(self).w <= i32::MAX,
            old(self).h <= i32::MAX,
            cov@.len() >= gw * gh,
            gx + gw <= i32::MAX + 1,
            gy + gh <= i32::MAX + 1,
        ensures
            final(self).wf(),
            final(self).w == old(self).w,
            final(self).h == old(self).h,
            final(self).px@ == composite(
                old(self).px@,
                old(self).w as int,
                gx,
                gy,
                gw as int,
                gh as int,
                cov@,
                fg,
                |x: int, y: int| 0 <= y - gy < gh && 0 <= x - gx < gw,
            ),
    {
        let w = self.w;
        let h = self.h;
        let ghost start = self.px@;
        let mut row: usize = 0;
        while row < gh
            invariant
                w == self.w,
                h == self.h,
                self.wf(),
                start.len() == self.px@.len(),
                w <= i32::MAX,
                h <= i32::MAX,
                cov@.len() >= gw * gh,
                gx + gw <= i32::MAX + 1,
                gy + gh <= i32::MAX + 1,
                row <= gh,
                self.px@ == composite(
                    start,
                    w as int,
                    gx,
                    gy,
                    gw as int,
                    gh as int,
                    cov@,
                    fg,
                    |x: int, y: int| 0 <= y - gy < row && 0 <= x - gx < gw,
                ),
            decreases gh - row,
        {
            let y: i64 = gy as i64 + row as i64;
            let mut col: usize = 0;
            proof {
                let a = |x: int, y: int| 0 <= y - gy < row && 0 <= x - gx < gw;
                let b = |x: int, y: int|
                    0 <= y - gy < gh && 0 <= x - gx < gw && (y - gy < row || (y - gy == row && x - gx
                        < col));
                assert(composite(start, w as int, gx, gy, gw as int, gh as int, cov@, fg, a)
                    =~= composite(start, w as int, gx, gy, gw as int, gh as int, cov@, fg, b));
            }
            while col < gw
                invariant
                    w == self.w,
                    h == self.h,
                    self.wf(),
                    start.len() == self.px@.len(),
                    w <= i32::MAX,
                    h <= i32::MAX,
                    cov@.len() >= gw * gh,
                    gx + gw <= i32::MAX + 1,
                    gy + gh <= i32::MAX + 1,
                    row < gh,
                    col <= gw,
                    y == gy + row,
                    self.px@ == composite(
                        start,
                        w as int,
                        gx,
                        gy,
                        gw as int,
                        gh as int,
                        cov@,
                        fg,
                        |x: int, y: int|
                            0 <= y - gy < gh && 0 <= x - gx < gw && (y - gy < row || (y - gy == row
                                && x - gx < col)),
                    ),
                decreases gw - col,
            {
                let x: i64 = gx as i64 + col as i64;
                let ghost done = |px: int, py: int|
                    0 <= py - gy < gh && 0 <= px - gx < gw && (py - gy < row || (py - gy == row && px
                        - gx < col));
                let ghost next = |px: int, py: int|
                    0 <= py - gy < gh && 0 <= px - gx < gw && (py - gy < row || (py - gy == row && px
                        - gx < col + 1));
                assert(row * gw + col < gw * gh) by (nonlinear_arith)
                    requires
                        row < gh,
                        col < gw,
                ;
                let cl = cov.len();
                assert(row * gw + col < cl);
                assert(row * gw <= cl);
                let a = cov[row * gw + col];
                if 0 <= y && y < h as i64 && 0 <= x && x < w as i64 && a > 0 {
                    let ux = x as usize;
                    let uy = y as usize;
                    proof {
                        lemma_pixel_index(w as int, h as int, ux as int, uy as int, 0);
                        lemma_pixel_index(w as int, h as int, ux as int, uy as int, 1);
                        lemma_pixel_index(w as int, h as int, ux as int, uy as int, 2);
                        lemma_pixel_index(w as int, h as int, ux as int, uy as int, 3);
                    }
                    let n = self.px.len();
                    assert((uy * w + ux) * 4 + 3 < n);
                    assert(uy * w <= n);
                    let i = (uy * w + ux) * 4;
                    let ghost before = self.px@;
                    proof {
                        // the pixel is untouched so far
                        assert(!done(ux as int, uy as int));
                        assert(before[i as int] == start[i as int]);
                        assert(before[i + 1] == start[i + 1]);
                        assert(before[i + 2] == start[i + 2]);
                        assert(before[i + 3] == start[i + 3]);
                        lemma_over_bounds(fg[0], a, before[i as int], before[i + 3]);
                        lemma_over_bounds(fg[1], a, before[i + 1], before[i + 3]);
                        lemma_over_bounds(fg[2], a, before[i + 2], before[i + 3]);
                    }
                    let av = a as u32;
                    let da = self.px[i + 3] as u32;
                    let oa = av * 255 + da * (255 - av);
                    let v0 = Self::blend(fg[0], a, self.px[i], self.px[i + 3]);
                    let v1 = Self::blend(fg[1], a, self.px[i + 1], self.px[i + 3]);
                    let v2 = Self::blend(fg[2], a, self.px[i + 2], self.px[i + 3]);
                    self.px.set(i, v0 as u8);
                    self.px.set(i + 1, v1 as u8);
                    self.px.set(i + 2, v2 as u8);
                    self.px.set(i + 3, ((oa + 127) / 255) as u8);
                    proof {
                        assert(coverage_at(gx, gy, gw as int, gh as int, cov@, ux as int, uy as int)
                            == a);
                        assert forall|j: int| 0 <= j < self.px@.len() implies self.px@[j]
                            == composite(
                            start,
                            w as int,
                            gx,
                            gy,
                            gw as int,
                            gh as int,
                            cov@,
                            fg,
                            next,
                        )[j] by {
                            lemma_index_pixel(w as int, h as int, j);
                            if i <= j < i + 4 {
                                lemma_pixel_index(w as int, h as int, ux as int, uy as int, j - i);
                                assert(j - j % 4 == i);
                            } else {
                                let jx = pixel_x(j, w as int);
                                let jy = pixel_y(j, w as int);
                                if jx == ux && jy == uy {
                                    lemma_pixel_index(w as int, h as int, ux as int, uy as int, j % 4);
                                }
                                assert(!(jx == ux && jy == uy));
                            }
                        }
                        assert(self.px@ =~= composite(
                            start,
                            w as int,
                            gx,
                            gy,
                            gw as int,
                            gh as int,
                            cov@,
                            fg,
                            next,
                        ));
                    }
                } else {
                    proof {
                        assert forall|j: int| 0 <= j < self.px@.len() implies composite(
                            start,
                            w as int,
                            gx,
                            gy,
                            gw as int,
                            gh as int,
                            cov@,
                            fg,
                            done,
                        )[j] == composite(
                            start,
                            w as int,
                            gx,
                            gy,
                            gw as int,
                            gh as int,
                            cov@,
                            fg,
                            next,
                        )[j] by {
                            lemma_index_pixel(w as int, h as int, j);
                            let jx = pixel_x(j, w as int);
                            let jy = pixel_y(j, w as int);
                            if jx == x && jy == y {
                                assert(coverage_at(gx, gy, gw as int, gh as int, cov@, jx, jy) == a);
                            }
                        }
                        assert(composite(start, w as int, gx, gy, gw as int, gh as int, cov@, fg, done)
                            =~= composite(start, w as int, gx, gy, gw as int, gh as int, cov@, fg, next));
                    }
                }
                col = col + 1;
            }
            proof {
                let a = |x: int, y: int|
                    0 <= y - gy < gh && 0 <= x - gx < gw && (y - gy < row || (y - gy == row && x - gx
                        < col));
                let b = |x: int, y: int| 0 <= y - gy < row + 1 && 0 <= x - gx < gw;
                assert(composite(start, w as int, gx, gy, gw as int, gh as int, cov@, fg, a)
                    =~= composite(start, w as int, gx, gy, gw as int, gh as int, cov@, fg, b));
            }
            row = row + 1;
        }
        proof {
            let a = |x: int, y: int| 0 <= y - gy < row && 0 <= x - gx < gw;
            let b = |x: int, y: int| 0 <= y - gy < gh && 0 <= x - gx < gw;
            assert(composite(start, w as int, gx, gy, gw as int, gh as int, cov@, fg, a)
                =~= composite(start, w as int, gx, gy, gw as int, gh as int, cov@, fg, b));
        }
    }
}

} // verus!
