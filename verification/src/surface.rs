//! The raster model: premultiplied-alpha pixels and the per-pixel
//! operations the compositor is built from — source-over blending,
//! luminance masking, clip stencils, opacity scaling and region clearing.

use vstd::prelude::*;
use crate::geom::{Rect, ScreenSize};

verus! {

/// An opaque paint color.
#[derive(Clone, Copy, Debug, PartialEq, Eq, Structural)]
pub struct Color {
    pub red: u8,
    pub green: u8,
    pub blue: u8,
}

/// One pixel, with premultiplied alpha: every color channel is at most
/// the alpha channel.
#[derive(Clone, Copy, Debug, PartialEq, Eq, Structural)]
pub struct Pixel {
    pub r: u8,
    pub g: u8,
    pub b: u8,
    pub a: u8,
}

/// The premultiplied-alpha invariant of a pixel.
pub open spec fn pixel_ok(p: Pixel) -> bool {
    p.r <= p.a && p.g <= p.a && p.b <= p.a
}

/// The fully transparent pixel.
pub open spec fn transparent() -> Pixel {
    Pixel { r: 0, g: 0, b: 0, a: 0 }
}

/// `x * y / 255`: the byte-range product used by every blending step.
pub open spec fn md(x: int, y: int) -> int {
    x * y / 255
}

pub proof fn lemma_md_bounds(x: int, y: int)
    requires
        0 <= x <= 255,
        0 <= y <= 255,
    ensures
        0 <= md(x, y) <= x,
        md(x, y) <= y,
        md(x, 255) == x,
        md(0, y) == 0,
{
    assert(0 <= x * y / 255 <= x && x * y / 255 <= y && x * 255 / 255 == x && 0 * y / 255 == 0)
        by (nonlinear_arith)
        requires
            0 <= x <= 255,
            0 <= y <= 255,
    ;
}

pub proof fn lemma_md_mono(x1: int, x2: int, y: int)
    requires
        0 <= x1 <= x2,
        0 <= y,
    ensures
        md(x1, y) <= md(x2, y),
{
    assert(x1 * y / 255 <= x2 * y / 255) by (nonlinear_arith)
        requires
            0 <= x1 <= x2,
            0 <= y,
    ;
}

/// `x * y / 255` on bytes, the exact arithmetic of `md`.
fn mul_div_255(x: u8, y: u8) -> (r: u8)
    ensures
        r as int == md(x as int, y as int),
        r <= x,
        r <= y,
{
    proof {
        lemma_md_bounds(x as int, y as int);
    }
    ((x as u32 * y as u32) / 255) as u8
}

/// Premultiplies a color by a source alpha.
pub open spec fn spec_premultiply(c: Color, alpha: int) -> Pixel {
    Pixel {
        r: md(c.red as int, alpha) as u8,
        g: md(c.green as int, alpha) as u8,
        b: md(c.blue as int, alpha) as u8,
        a: alpha as u8,
    }
}

/// Builds the premultiplied source pixel for a paint color and alpha.
pub fn premultiply(c: Color, alpha: u8) -> (p: Pixel)
    ensures
        p == spec_premultiply(c, alpha as int),
        pixel_ok(p),
        alpha == 255 ==> p == (Pixel { r: c.red, g: c.green, b: c.blue, a: 255 }),
{
    proof {
        lemma_md_bounds(c.red as int, alpha as int);
        lemma_md_bounds(c.green as int, alpha as int);
        lemma_md_bounds(c.blue as int, alpha as int);
    }
    Pixel {
        r: mul_div_255(c.red, alpha),
        g: mul_div_255(c.green, alpha),
        b: mul_div_255(c.blue, alpha),
        a: alpha,
    }
}

/// Source-over blending of premultiplied pixels:
/// `out = src + dst * (255 - src.a) / 255`, channel by channel.
pub open spec fn spec_over(dst: Pixel, src: Pixel) -> Pixel {
    Pixel {
        r: (src.r as int + md(dst.r as int, 255 - src.a as int)) as u8,
        g: (src.g as int + md(dst.g as int, 255 - src.a as int)) as u8,
        b: (src.b as int + md(dst.b as int, 255 - src.a as int)) as u8,
        a: (src.a as int + md(dst.a as int, 255 - src.a as int)) as u8,
    }
}

/// An opaque source replaces the destination outright, and a transparent
/// source leaves it unchanged: the two identities of source-over blending.
pub proof fn lemma_over_identities(dst: Pixel, src: Pixel)
    requires
        pixel_ok(dst),
        pixel_ok(src),
    ensures
        src.a == 255 ==> spec_over(dst, src) == src,
        src == transparent() ==> spec_over(dst, src) == dst,
{
    lemma_md_bounds(dst.r as int, 255 - src.a as int);
    lemma_md_bounds(dst.g as int, 255 - src.a as int);
    lemma_md_bounds(dst.b as int, 255 - src.a as int);
    lemma_md_bounds(dst.a as int, 255 - src.a as int);
}

/// Blends `src` over `dst`, both premultiplied.
pub fn blend_over(dst: Pixel, src: Pixel) -> (out: Pixel)
    requires
        pixel_ok(dst),
        pixel_ok(src),
    ensures
        out == spec_over(dst, src),
        pixel_ok(out),
{
    let k: u8 = 255 - src.a;
    proof {
        lemma_md_bounds(dst.r as int, k as int);
        lemma_md_bounds(dst.g as int, k as int);
        lemma_md_bounds(dst.b as int, k as int);
        lemma_md_bounds(dst.a as int, k as int);
        lemma_md_mono(dst.r as int, dst.a as int, k as int);
        lemma_md_mono(dst.g as int, dst.a as int, k as int);
        lemma_md_mono(dst.b as int, dst.a as int, k as int);
    }
    Pixel {
        r: src.r + mul_div_255(dst.r, k),
        g: src.g + mul_div_255(dst.g, k),
        b: src.b + mul_div_255(dst.b, k),
        a: src.a + mul_div_255(dst.a, k),
    }
}

/// Scales every channel of a premultiplied pixel by `k / 255`.
pub open spec fn spec_scale_pixel(p: Pixel, k: int) -> Pixel {
    Pixel {
        r: md(p.r as int, k) as u8,
        g: md(p.g as int, k) as u8,
        b: md(p.b as int, k) as u8,
        a: md(p.a as int, k) as u8,
    }
}

/// Scaling by 255 is the identity and scaling by 0 clears the pixel.
pub proof fn lemma_scale_identities(p: Pixel)
    requires
        pixel_ok(p),
    ensures
        spec_scale_pixel(p, 255) == p,
        spec_scale_pixel(p, 0) == transparent(),
{
    lemma_md_bounds(p.r as int, 255);
    lemma_md_bounds(p.g as int, 255);
    lemma_md_bounds(p.b as int, 255);
    lemma_md_bounds(p.a as int, 255);
    assert(md(p.r as int, 0) == 0 && md(p.g as int, 0) == 0 && md(p.b as int, 0) == 0 && md(
        p.a as int,
        0,
    ) == 0) by (nonlinear_arith);
}

fn scale_pixel(p: Pixel, k: u8) -> (out: Pixel)
    requires
        pixel_ok(p),
    ensures
        out == spec_scale_pixel(p, k as int),
        pixel_ok(out),
{
    proof {
        lemma_md_mono(p.r as int, p.a as int, k as int);
        lemma_md_mono(p.g as int, p.a as int, k as int);
        lemma_md_mono(p.b as int, p.a as int, k as int);
    }
    Pixel {
        r: mul_div_255(p.r, k),
        g: mul_div_255(p.g, k),
        b: mul_div_255(p.b, k),
        a: mul_div_255(p.a, k),
    }
}

/// The luminance of a premultiplied pixel, 0..=255. Because the channels
/// are premultiplied this already weighs the pixel's own alpha in.
pub open spec fn spec_luminance(p: Pixel) -> int {
    (2125 * p.r as int + 7154 * p.g as int + 721 * p.b as int) / 10000
}

/// Opaque white has luminance 255; transparent or opaque black, 0.
pub proof fn lemma_luminance_extremes(p: Pixel)
    ensures
        p.r == 255 && p.g == 255 && p.b == 255 ==> spec_luminance(p) == 255,
        p.r == 0 && p.g == 0 && p.b == 0 ==> spec_luminance(p) == 0,
        0 <= spec_luminance(p) <= 255,
{
}

fn luminance(p: Pixel) -> (l: u8)
    ensures
        l as int == spec_luminance(p),
{
    proof {
        lemma_luminance_extremes(p);
    }
    ((2125 * p.r as u32 + 7154 * p.g as u32 + 721 * p.b as u32) / 10000) as u8
}

/// Whether pixel index `i` of a surface `width` pixels wide lies inside
/// the pixel-space rectangle `r`.
pub open spec fn spec_covered(r: Rect, width: int, i: int) -> bool {
    let px = i % width;
    let py = i / width;
    r.x <= px < r.x + r.w && r.y <= py < r.y + r.h
}

/// An offscreen raster buffer or the output canvas itself.
#[derive(Debug)]
pub struct Surface {
    pub width: u32,
    pub height: u32,
    pub pixels: Vec<Pixel>,
}

impl Surface {
    /// The pixel contents, row-major.
    pub open spec fn view(self) -> Seq<Pixel> {
        self.pixels@
    }

    /// Well-formedness: a usable size, one pixel per cell, and every
    /// pixel premultiplied.
    pub open spec fn wf(self) -> bool {
        (ScreenSize { width: self.width, height: self.height }).is_valid() && self.pixels@.len()
            == self.width as int * self.height as int && forall|i: int|
            0 <= i < self.pixels@.len() ==> pixel_ok(#[trigger] self.pixels@[i])
    }

    /// The size of the surface.
    pub open spec fn spec_size(self) -> ScreenSize {
        ScreenSize { width: self.width, height: self.height }
    }

    /// The uniform contents of a freshly allocated surface: the
    /// background color, fully opaque, or transparent when none is given.
    pub open spec fn spec_background(background: Option<Color>) -> Pixel {
        match background {
            Some(c) => Pixel { r: c.red, g: c.green, b: c.blue, a: 255 },
            None => transparent(),
        }
    }

    /// Allocates a surface filled with the background color, or fully
    /// transparent when no background is given.
    pub fn new(size: ScreenSize, background: Option<Color>) -> (s: Surface)
        requires
            size.is_valid(),
        ensures
            s.wf(),
            s.spec_size() == size,
            s@.len() == size.width as int * size.height as int,
            forall|i: int| 0 <= i < s@.len() ==> s@[i] == Self::spec_background(background),
    {
        let fill: Pixel = match background {
            Some(c) => Pixel { r: c.red, g: c.green, b: c.blue, a: 255 },
            None => Pixel { r: 0, g: 0, b: 0, a: 0 },
        };
        proof {
            assert(size.width as int * size.height as int <= 4096 * 4096) by (nonlinear_arith)
                requires
                    0 < size.width <= 4096,
                    0 < size.height <= 4096,
            ;
        }
        let n: usize = (size.width as usize) * (size.height as usize);
        let mut pixels: Vec<Pixel> = Vec::new();
        let mut i: usize = 0;
        while i < n
            invariant
                i <= n,
                pixels@.len() == i as int,
                forall|j: int| 0 <= j < i as int ==> pixels@[j] == fill,
            decreases n - i,
        {
            pixels.push(fill);
            i = i + 1;
        }
        Surface { width: size.width, height: size.height, pixels }
    }
}

/// The contents of a surface after blending `src` over every pixel that
/// lies inside the pixel-space rectangle `r`.
pub open spec fn spec_fill(pix: Seq<Pixel>, width: int, r: Rect, src: Pixel) -> Seq<Pixel> {
    Seq::new(
        pix.len(),
        |i: int|
            if spec_covered(r, width, i) {
                spec_over(pix[i], src)
            } else {
                pix[i]
            },
    )
}

/// The contents of a destination of width `dw` after blending a source
/// surface (contents `spix`, size `sw` x `sh`) over it, pixel by pixel,
/// aligned at the origin; destination pixels outside the source keep
/// their value.
pub open spec fn spec_composite(
    dst: Seq<Pixel>,
    dw: int,
    spix: Seq<Pixel>,
    sw: int,
    sh: int,
) -> Seq<Pixel> {
    Seq::new(
        dst.len(),
        |i: int|
            {
                let x = i % dw;
                let y = i / dw;
                if x < sw && y < sh {
                    spec_over(dst[i], spix[y * sw + x])
                } else {
                    dst[i]
                }
            },
    )
}

/// The contents after multiplying every pixel by the luminance of the
/// same pixel of a mask surface.
pub open spec fn spec_apply_mask(dst: Seq<Pixel>, m: Seq<Pixel>) -> Seq<Pixel> {
    Seq::new(dst.len(), |i: int| spec_scale_pixel(dst[i], spec_luminance(m[i])))
}

/// The contents after multiplying every pixel by the alpha coverage of
/// the same pixel of a clip stencil.
pub open spec fn spec_apply_clip(dst: Seq<Pixel>, st: Seq<Pixel>) -> Seq<Pixel> {
    Seq::new(dst.len(), |i: int| spec_scale_pixel(dst[i], st[i].a as int))
}

/// The contents after scaling every pixel by an opacity `k / 255`.
pub open spec fn spec_apply_opacity(dst: Seq<Pixel>, k: int) -> Seq<Pixel> {
    Seq::new(dst.len(), |i: int| spec_scale_pixel(dst[i], k))
}

/// The contents after clearing every pixel outside the pixel-space
/// rectangle `r` to transparent.
pub open spec fn spec_clear_outside(pix: Seq<Pixel>, width: int, r: Rect) -> Seq<Pixel> {
    Seq::new(
        pix.len(),
        |i: int|
            if spec_covered(r, width, i) {
                pix[i]
            } else {
                transparent()
            },
    )
}

impl Surface {
    /// Tests in executable code what `spec_covered` states.
    fn covered(&self, r: Rect, i: usize) -> (c: bool)
        requires
            self.wf(),
            i < self@.len(),
        ensures
            c == spec_covered(r, self.width as int, i as int),
    {
        let w: usize = self.width as usize;
        let px: usize = i % w;
        let py: usize = i / w;
        (r.x as i128) <= (px as i128) && (px as i128) < (r.x as i128) + (r.w as i128) && (
        r.y as i128) <= (py as i128) && (py as i128) < (r.y as i128) + (r.h as i128)
    }

    /// Blends an axis-aligned rectangle of paint over the surface:
    /// the one drawing primitive of leaf drawables.
    pub fn fill_rect(&mut self, r: Rect, color: Color, alpha: u8)
        requires
            old(self).wf(),
        ensures
            final(self).wf(),
            final(self).width == old(self).width,
            final(self).height == old(self).height,
            final(self)@ == spec_fill(
                old(self)@,
                old(self).width as int,
                r,
                spec_premultiply(color, alpha as int),
            ),
    {
        let src = premultiply(color, alpha);
        let ghost target = spec_fill(old(self)@, old(self).width as int, r, src);
        let n: usize = self.pixels.len();
        let mut i: usize = 0;
        while i < n
            invariant
                old(self).wf(),
                self.wf(),
                self.width == old(self).width,
                self.height == old(self).height,
                i <= n,
                n == self@.len(),
                self@.len() == old(self)@.len(),
                target == spec_fill(old(self)@, old(self).width as int, r, src),
                pixel_ok(src),
                forall|j: int| 0 <= j < i as int ==> self@[j] == target[j],
                forall|j: int| i as int <= j < n as int ==> self@[j] == old(self)@[j],
            decreases n - i,
        {
            if self.covered(r, i) {
                let p = self.pixels[i];
                let v = blend_over(p, src);
                self.pixels.set(i, v);
            }
            i = i + 1;
        }
        proof {
            assert(self@ =~= target);
        }
    }

    /// Blends a whole source surface over this one, aligned at the
    /// origin: how a finished isolation layer lands on its target.
    pub fn composite(&mut self, src: &Surface)
        requires
            old(self).wf(),
            src.wf(),
        ensures
            final(self).wf(),
            final(self).width == old(self).width,
            final(self).height == old(self).height,
            final(self)@ == spec_composite(
                old(self)@,
                old(self).width as int,
                src@,
                src.width as int,
                src.height as int,
            ),
    {
        let ghost target = spec_composite(
            old(self)@,
            old(self).width as int,
            src@,
            src.width as int,
            src.height as int,
        );
        let w: usize = self.width as usize;
        let sw: usize = src.width as usize;
        let sh: usize = src.height as usize;
        let n: usize = self.pixels.len();
        let mut i: usize = 0;
        while i < n
            invariant
                old(self).wf(),
                self.wf(),
                src.wf(),
                self.width == old(self).width,
                self.height == old(self).height,
                w == self.width as int,
                sw == src.width as int,
                sh == src.height as int,
                i <= n,
                n == self@.len(),
                self@.len() == old(self)@.len(),
                target == spec_composite(old(self)@, w as int, src@, sw as int, sh as int),
                forall|j: int| 0 <= j < i as int ==> self@[j] == target[j],
                forall|j: int| i as int <= j < n as int ==> self@[j] == old(self)@[j],
            decreases n - i,
        {
            let x: usize = i % w;
            let y: usize = i / w;
            if x < sw && y < sh {
                proof {
                    assert(y * sw + x < sh * sw) by (nonlinear_arith)
                        requires
                            0 <= x < sw,
                            0 <= y < sh,
                    ;
                    assert(src@.len() == sw as int * sh as int);
                    assert(sh * sw == sw as int * sh as int) by (nonlinear_arith);
                    assert(sh * sw <= 4096 * 4096) by (nonlinear_arith)
                        requires
                            0 <= sh <= 4096,
                            0 <= sw <= 4096,
                    ;
                }
                let j: usize = y * sw + x;
                let p = self.pixels[i];
                let v = blend_over(p, src.pixels[j]);
                self.pixels.set(i, v);
            }
            i = i + 1;
        }
        proof {
            assert(self@ =~= target);
        }
    }

    /// Multiplies every pixel by the luminance of the matching pixel of a
    /// rendered mask layer of the same size.
    pub fn apply_mask(&mut self, m: &Surface)
        requires
            old(self).wf(),
            m.wf(),
            m.width == old(self).width,
            m.height == old(self).height,
        ensures
            final(self).wf(),
            final(self).width == old(self).width,
            final(self).height == old(self).height,
            final(self)@ == spec_apply_mask(old(self)@, m@),
    {
        let ghost target = spec_apply_mask(old(self)@, m@);
        let n: usize = self.pixels.len();
        let mut i: usize = 0;
        while i < n
            invariant
                old(self).wf(),
                self.wf(),
                m.wf(),
                self.width == old(self).width,
                self.height == old(self).height,
                i <= n,
                n == self@.len(),
                self@.len() == old(self)@.len(),
                m@.len() == old(self)@.len(),
                target == spec_apply_mask(old(self)@, m@),
                forall|j: int| 0 <= j < i as int ==> self@[j] == target[j],
                forall|j: int| i as int <= j < n as int ==> self@[j] == old(self)@[j],
            decreases n - i,
        {
            let l = luminance(m.pixels[i]);
            proof {
                lemma_luminance_extremes(m@[i as int]);
            }
            let p = self.pixels[i];
            let v = scale_pixel(p, l);
            self.pixels.set(i, v);
            i = i + 1;
        }
        proof {
            assert(self@ =~= target);
        }
    }

    /// Multiplies every pixel by the alpha coverage of the matching pixel
    /// of a clip stencil of the same size.
    pub fn apply_clip(&mut self, st: &Surface)
        requires
            old(self).wf(),
            st.wf(),
            st.width == old(self).width,
            st.height == old(self).height,
        ensures
            final(self).wf(),
            final(self).width == old(self).width,
            final(self).height == old(self).height,
            final(self)@ == spec_apply_clip(old(self)@, st@),
    {
        let ghost target = spec_apply_clip(old(self)@, st@);
        let n: usize = self.pixels.len();
        let mut i: usize = 0;
        while i < n
            invariant
                old(self).wf(),
                self.wf(),
                st.wf(),
                self.width == old(self).width,
                self.height == old(self).height,
                i <= n,
                n == self@.len(),
                self@.len() == old(self)@.len(),
                st@.len() == old(self)@.len(),
                target == spec_apply_clip(old(self)@, st@),
                forall|j: int| 0 <= j < i as int ==> self@[j] == target[j],
                forall|j: int| i as int <= j < n as int ==> self@[j] == old(self)@[j],
            decreases n - i,
        {
            let p = self.pixels[i];
            let v = scale_pixel(p, st.pixels[i].a);
            self.pixels.set(i, v);
            i = i + 1;
        }
        proof {
            assert(self@ =~= target);
        }
    }

    /// Scales every pixel by a group opacity `k / 255`.
    pub fn apply_opacity(&mut self, k: u8)
        requires
            old(self).wf(),
        ensures
            final(self).wf(),
            final(self).width == old(self).width,
            final(self).height == old(self).height,
            final(self)@ == spec_apply_opacity(old(self)@, k as int),
    {
        let ghost target = spec_apply_opacity(old(self)@, k as int);
        let n: usize = self.pixels.len();
        let mut i: usize = 0;
        while i < n
            invariant
                old(self).wf(),
                self.wf(),
                self.width == old(self).width,
                self.height == old(self).height,
                i <= n,
                n == self@.len(),
                self@.len() == old(self)@.len(),
                target == spec_apply_opacity(old(self)@, k as int),
                forall|j: int| 0 <= j < i as int ==> self@[j] == target[j],
                forall|j: int| i as int <= j < n as int ==> self@[j] == old(self)@[j],
            decreases n - i,
        {
            let p = self.pixels[i];
            let v = scale_pixel(p, k);
            self.pixels.set(i, v);
            i = i + 1;
        }
        proof {
            assert(self@ =~= target);
        }
    }

    /// Clears every pixel outside a pixel-space region to transparent:
    /// how a mask or clip region confines its effect.
    pub fn clear_outside(&mut self, r: Rect)
        requires
            old(self).wf(),
        ensures
            final(self).wf(),
            final(self).width == old(self).width,
            final(self).height == old(self).height,
            final(self)@ == spec_clear_outside(old(self)@, old(self).width as int, r),
    {
        let ghost target = spec_clear_outside(old(self)@, old(self).width as int, r);
        let n: usize = self.pixels.len();
        let mut i: usize = 0;
        while i < n
            invariant
                old(self).wf(),
                self.wf(),
                self.width == old(self).width,
                self.height == old(self).height,
                i <= n,
                n == self@.len(),
                self@.len() == old(self)@.len(),
                target == spec_clear_outside(old(self)@, old(self).width as int, r),
                forall|j: int| 0 <= j < i as int ==> self@[j] == target[j],
                forall|j: int| i as int <= j < n as int ==> self@[j] == old(self)@[j],
            decreases n - i,
        {
            if !self.covered(r, i) {
                self.pixels.set(i, Pixel { r: 0, g: 0, b: 0, a: 0 });
            }
            i = i + 1;
        }
        proof {
            assert(self@ =~= target);
        }
    }
}

} // verus!
