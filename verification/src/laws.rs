//! The laws of the pipeline: properties that relate several functions,
//! stated over the same spec functions the functions' own contracts use
//! and proved once and for all.

use vstd::prelude::*;
use crate::geom::{Rect, ScreenSize};
use crate::surface::{
    Pixel, pixel_ok, transparent, spec_over, spec_apply_mask, spec_fill, spec_composite,
    spec_premultiply, lemma_over_identities, lemma_scale_identities, lemma_luminance_extremes,
    lemma_md_bounds,
};
use crate::tree::{Node, Group, group_wf};
use crate::state::RenderState;
use crate::geom::spec_sat_add;
use crate::render::{
    spec_render_node, spec_render_children, spec_render_group, spec_requires_isolation,
    spec_transparent_layer,
};
use crate::mask::{MaskSource, spec_units_of, spec_resolved_rect};
use crate::tree::Units;

verus! {

/// Isolation is required exactly when the group has opacity below one,
/// references a mask, references a clip path, or references at least
/// one filter.
pub proof fn lemma_isolation_iff(g: Group)
    ensures
        spec_requires_isolation(g) <==> (g.opacity < 255 || g.mask is Some || g.clip_path is Some
            || g.filters@.len() > 0),
{
}

/// A mask source with every rectangle attribute unspecified, on
/// bounding-box-relative units, resolves exactly to the box from −10 %
/// to 110 % of the referencing element's bounding box: x and y −10,
/// width and height 120, in hundredths.
pub proof fn lemma_default_mask_rect(d: MaskSource, vp: ScreenSize)
    requires
        spec_units_of(d) == Units::ObjectBoundingBox,
        d.x is None,
        d.y is None,
        d.width is None,
        d.height is None,
    ensures
        spec_resolved_rect(d, vp) == (Rect { x: -10i64, y: -10i64, w: 120i64, h: 120i64 }),
{
}

/// The clip-path counterpart of `lemma_default_mask_rect`.
pub proof fn lemma_default_clip_rect(d: crate::clip::ClipPathSource, vp: ScreenSize)
    requires
        crate::clip::spec_clip_units_of(d) == Units::ObjectBoundingBox,
        d.x is None,
        d.y is None,
        d.width is None,
        d.height is None,
    ensures
        crate::clip::spec_clip_resolved_rect(d, vp) == (Rect { x: -10i64, y: -10i64, w: 120i64, h: 120i64 }),
{
}

/// A mask layer of fully opaque white pixels leaves a surface
/// unchanged: the luminance of every mask pixel is one.
pub proof fn lemma_mask_all_white_noop(dst: Seq<Pixel>, m: Seq<Pixel>)
    requires
        m.len() == dst.len(),
        forall|i: int| 0 <= i < dst.len() ==> pixel_ok(#[trigger] dst[i]),
        forall|i: int| 0 <= i < m.len() ==> #[trigger] m[i] == (Pixel { r: 255, g: 255, b: 255, a: 255 }),
    ensures
        spec_apply_mask(dst, m) == dst,
{
    assert forall|i: int| 0 <= i < dst.len() implies spec_apply_mask(dst, m)[i] == dst[i] by {
        lemma_luminance_extremes(m[i]);
        lemma_scale_identities(dst[i]);
    }
    assert(spec_apply_mask(dst, m) =~= dst);
}

/// A mask layer of fully opaque black pixels clears a surface to full
/// transparency: the luminance of every mask pixel is zero.
pub proof fn lemma_mask_all_black_clears(dst: Seq<Pixel>, m: Seq<Pixel>)
    requires
        m.len() == dst.len(),
        forall|i: int| 0 <= i < dst.len() ==> pixel_ok(#[trigger] dst[i]),
        forall|i: int| 0 <= i < m.len() ==> #[trigger] m[i] == (Pixel { r: 0, g: 0, b: 0, a: 255 }),
    ensures
        forall|i: int| 0 <= i < dst.len() ==> #[trigger] spec_apply_mask(dst, m)[i] == transparent(),
{
    assert forall|i: int| 0 <= i < dst.len() implies #[trigger] spec_apply_mask(dst, m)[i]
        == transparent() by {
        lemma_luminance_extremes(m[i]);
        lemma_scale_identities(dst[i]);
    }
}

/// A fatal render state at entry makes rendering a node a no-op: the
/// target and the state come back untouched.
pub proof fn lemma_fatal_is_noop(
    n: Node,
    ox: int,
    oy: int,
    budget: int,
    vp: ScreenSize,
    pix: Seq<Pixel>,
    pw: int,
    st: RenderState,
)
    requires
        st.spec_is_fatal(),
    ensures
        spec_render_node(n, ox, oy, budget, vp, pix, pw, st) == (pix, st),
{
}

/// Once the state turns fatal partway through a group's children, every
/// subsequently visited sibling is skipped: the pixels after the first
/// `i` children equal the pixels after the first `k`, for any `k` at
/// which the state has already turned fatal — while the work of the
/// earlier siblings stays on the target.
pub proof fn lemma_fatal_skips_later_siblings(
    s: Seq<Node>,
    k: int,
    i: int,
    ox: int,
    oy: int,
    budget: int,
    vp: ScreenSize,
    pix: Seq<Pixel>,
    pw: int,
    st: RenderState,
)
    requires
        0 <= k <= i <= s.len(),
        spec_render_children(s, k, ox, oy, budget, vp, pix, pw, st).1.spec_is_fatal(),
    ensures
        spec_render_children(s, i, ox, oy, budget, vp, pix, pw, st) == spec_render_children(
            s,
            k,
            ox,
            oy,
            budget,
            vp,
            pix,
            pw,
            st,
        ),
    decreases i - k,
{
    if i > k {
        lemma_fatal_skips_later_siblings(s, k, i - 1, ox, oy, budget, vp, pix, pw, st);
        let r = spec_render_children(s, i - 1, ox, oy, budget, vp, pix, pw, st);
        lemma_fatal_is_noop(s[i - 1], ox, oy, budget, vp, r.0, pw, r.1);
    }
}

/// Whether every node of a sequence is a fully opaque leaf: a path with
/// full opacity, or an image.
pub open spec fn opaque_leaves(s: Seq<Node>) -> bool {
    forall|i: int|
        0 <= i < s.len() ==> match #[trigger] s[i] {
            Node::Path(p) => p.opacity == 255,
            Node::Image(_) => true,
            Node::Group(_) => false,
        }
}

/// Rendering leaves changes no state and keeps pixel count and
/// premultiplication.
pub proof fn lemma_leaf_fold_basics(
    s: Seq<Node>,
    i: int,
    ox: int,
    oy: int,
    budget: int,
    vp: ScreenSize,
    pix: Seq<Pixel>,
    pw: int,
    st: RenderState,
)
    requires
        0 <= i <= s.len(),
        opaque_leaves(s),
        forall|p: int| 0 <= p < pix.len() ==> pixel_ok(#[trigger] pix[p]),
    ensures
        spec_render_children(s, i, ox, oy, budget, vp, pix, pw, st).1 == st,
        spec_render_children(s, i, ox, oy, budget, vp, pix, pw, st).0.len() == pix.len(),
        forall|p: int|
            0 <= p < pix.len() ==> pixel_ok(
                #[trigger] spec_render_children(s, i, ox, oy, budget, vp, pix, pw, st).0[p],
            ),
    decreases i,
{
    if i > 0 {
        lemma_leaf_fold_basics(s, i - 1, ox, oy, budget, vp, pix, pw, st);
        let r = spec_render_children(s, i - 1, ox, oy, budget, vp, pix, pw, st);
        assert(spec_render_children(s, i, ox, oy, budget, vp, pix, pw, st) == spec_render_node(
            s[i - 1],
            ox,
            oy,
            budget,
            vp,
            r.0,
            pw,
            r.1,
        ));
        if !st.spec_is_fatal() {
            match s[i - 1] {
                Node::Path(p) => {
                    assert forall|q: int|
                        0 <= q < r.0.len() implies pixel_ok(
                        #[trigger] spec_fill(
                            r.0,
                            pw,
                            crate::render::spec_shift_rect(p.rect, ox, oy),
                            spec_premultiply(p.fill, p.opacity as int),
                        )[q],
                    ) by {
                        lemma_md_bounds(p.fill.red as int, p.opacity as int);
                        lemma_md_bounds(p.fill.green as int, p.opacity as int);
                        lemma_md_bounds(p.fill.blue as int, p.opacity as int);
                        let src = spec_premultiply(p.fill, p.opacity as int);
                        lemma_over_ok(r.0[q], src);
                    }
                },
                Node::Image(im) => {
                    assert forall|q: int|
                        0 <= q < r.0.len() implies pixel_ok(
                        #[trigger] spec_fill(
                            r.0,
                            pw,
                            crate::render::spec_shift_rect(im.rect, ox, oy),
                            spec_premultiply(im.fill, 255),
                        )[q],
                    ) by {
                        lemma_md_bounds(im.fill.red as int, 255);
                        lemma_md_bounds(im.fill.green as int, 255);
                        lemma_md_bounds(im.fill.blue as int, 255);
                        let src = spec_premultiply(im.fill, 255);
                        lemma_over_ok(r.0[q], src);
                    }
                },
                Node::Group(_) => {
                    assert(false);
                },
            }
        }
    }
}

/// Source-over blending of premultiplied pixels yields a premultiplied
/// pixel.
pub proof fn lemma_over_ok(dst: Pixel, src: Pixel)
    requires
        pixel_ok(dst),
        pixel_ok(src),
    ensures
        pixel_ok(spec_over(dst, src)),
{
    crate::surface::lemma_md_bounds(dst.r as int, 255 - src.a as int);
    crate::surface::lemma_md_bounds(dst.g as int, 255 - src.a as int);
    crate::surface::lemma_md_bounds(dst.b as int, 255 - src.a as int);
    crate::surface::lemma_md_bounds(dst.a as int, 255 - src.a as int);
    crate::surface::lemma_md_mono(dst.r as int, dst.a as int, 255 - src.a as int);
    crate::surface::lemma_md_mono(dst.g as int, dst.a as int, 255 - src.a as int);
    crate::surface::lemma_md_mono(dst.b as int, dst.a as int, 255 - src.a as int);
}

/// The two renderings of the same children — onto a fresh transparent
/// layer and directly onto the target — stay pixel-by-pixel related:
/// every layer pixel is still transparent where the target pixel is
/// still untouched, and opaque and equal to the target's pixel where
/// something was drawn.
pub proof fn lemma_fold_pair(
    s: Seq<Node>,
    i: int,
    ox: int,
    oy: int,
    b1: int,
    b2: int,
    vp: ScreenSize,
    pix: Seq<Pixel>,
    st: RenderState,
)
    requires
        0 <= i <= s.len(),
        opaque_leaves(s),
        forall|p: int| 0 <= p < pix.len() ==> pixel_ok(#[trigger] pix[p]),
        pix.len() == vp.width as int * vp.height as int,
    ensures
        ({
            let lay = spec_render_children(
                s,
                i,
                ox,
                oy,
                b1,
                vp,
                spec_transparent_layer(vp),
                vp.width as int,
                st,
            ).0;
            let dir = spec_render_children(s, i, ox, oy, b2, vp, pix, vp.width as int, st).0;
            forall|p: int|
                0 <= p < pix.len() ==> ((#[trigger] lay[p]) == transparent() && dir[p] == pix[p]) || (
                lay[p] == dir[p] && lay[p].a == 255)
        }),
    decreases i,
{
    assert(spec_transparent_layer(vp).len() == pix.len());
    assert(forall|p: int|
        0 <= p < pix.len() ==> (#[trigger] spec_transparent_layer(vp)[p]) == transparent());
    if i > 0 {
        lemma_fold_pair(s, i - 1, ox, oy, b1, b2, vp, pix, st);
        lemma_leaf_fold_basics(s, i - 1, ox, oy, b1, vp, spec_transparent_layer(vp), vp.width as int, st);
        lemma_leaf_fold_basics(s, i - 1, ox, oy, b2, vp, pix, vp.width as int, st);
        let lp = spec_render_children(
            s,
            i - 1,
            ox,
            oy,
            b1,
            vp,
            spec_transparent_layer(vp),
            vp.width as int,
            st,
        );
        let dp = spec_render_children(s, i - 1, ox, oy, b2, vp, pix, vp.width as int, st);
        assert(spec_render_children(
            s,
            i,
            ox,
            oy,
            b1,
            vp,
            spec_transparent_layer(vp),
            vp.width as int,
            st,
        ) == spec_render_node(s[i - 1], ox, oy, b1, vp, lp.0, vp.width as int, lp.1));
        assert(spec_render_children(s, i, ox, oy, b2, vp, pix, vp.width as int, st)
            == spec_render_node(s[i - 1], ox, oy, b2, vp, dp.0, vp.width as int, dp.1));
        if !st.spec_is_fatal() {
            let src = match s[i - 1] {
                Node::Path(pa) => spec_premultiply(pa.fill, pa.opacity as int),
                Node::Image(im) => spec_premultiply(im.fill, 255),
                Node::Group(_) => transparent(),
            };
            match s[i - 1] {
                Node::Path(pa) => {
                    lemma_md_bounds(pa.fill.red as int, 255);
                    lemma_md_bounds(pa.fill.green as int, 255);
                    lemma_md_bounds(pa.fill.blue as int, 255);
                },
                Node::Image(im) => {
                    lemma_md_bounds(im.fill.red as int, 255);
                    lemma_md_bounds(im.fill.green as int, 255);
                    lemma_md_bounds(im.fill.blue as int, 255);
                },
                Node::Group(_) => {
                    assert(false);
                },
            }
            assert(src.a == 255);
            let li = spec_render_children(
                s,
                i,
                ox,
                oy,
                b1,
                vp,
                spec_transparent_layer(vp),
                vp.width as int,
                st,
            ).0;
            let di = spec_render_children(s, i, ox, oy, b2, vp, pix, vp.width as int, st).0;
            assert forall|p: int|
                0 <= p < pix.len() implies ((#[trigger] li[p]) == transparent() && di[p] == pix[p])
                || (li[p] == di[p] && li[p].a == 255) by {
                lemma_over_identities(lp.0[p], src);
                lemma_over_identities(dp.0[p], src);
            }
        }
    }
}

/// Taking the isolation path for a group that does not require
/// isolation changes nothing: rendering the children into a fresh
/// transparent layer and compositing that layer back yields exactly the
/// direct rendering — for subtrees of fully opaque leaves, where no
/// blending rounding is involved.
pub proof fn lemma_isolation_idempotent(
    g: Group,
    bbox_px: Option<Rect>,
    ox: int,
    oy: int,
    budget: int,
    vp: ScreenSize,
    pix: Seq<Pixel>,
    st: RenderState,
)
    requires
        group_wf(g),
        !spec_requires_isolation(g),
        opaque_leaves(g.children@),
        forall|p: int| 0 <= p < pix.len() ==> pixel_ok(#[trigger] pix[p]),
        pix.len() == vp.width as int * vp.height as int,
        vp.is_valid(),
    ensures
        ({
            let ox2 = spec_sat_add(ox, g.transform.tx as int);
            let oy2 = spec_sat_add(oy, g.transform.ty as int);
            let lay = spec_render_children(
                g.children@,
                g.children@.len() as int,
                ox2,
                oy2,
                budget - 1,
                vp,
                spec_transparent_layer(vp),
                vp.width as int,
                st,
            ).0;
            spec_composite(pix, vp.width as int, lay, vp.width as int, vp.height as int)
                == spec_render_group(g, bbox_px, ox, oy, budget, vp, pix, vp.width as int, st).0
        }),
{
    let ox2 = spec_sat_add(ox, g.transform.tx as int);
    let oy2 = spec_sat_add(oy, g.transform.ty as int);
    let s = g.children@;
    let n = s.len() as int;
    lemma_fold_pair(s, n, ox2, oy2, budget - 1, budget, vp, pix, st);
    lemma_leaf_fold_basics(s, n, ox2, oy2, budget - 1, vp, spec_transparent_layer(vp), vp.width as int, st);
    lemma_leaf_fold_basics(s, n, ox2, oy2, budget, vp, pix, vp.width as int, st);
    let lay = spec_render_children(
        s,
        n,
        ox2,
        oy2,
        budget - 1,
        vp,
        spec_transparent_layer(vp),
        vp.width as int,
        st,
    ).0;
    let dir = spec_render_children(s, n, ox2, oy2, budget, vp, pix, vp.width as int, st).0;
    let w = vp.width as int;
    let h = vp.height as int;
    assert(spec_transparent_layer(vp).len() == w * h);
    assert forall|p: int|
        0 <= p < pix.len() implies (#[trigger] spec_composite(pix, w, lay, w, h)[p]) == dir[p] by {
        vstd::arithmetic::div_mod::lemma_fundamental_div_mod(p, w);
        assert(p / w < h) by (nonlinear_arith)
            requires
                0 <= p < w * h,
                0 < w,
        ;
        assert((p / w) * w + p % w == p) by (nonlinear_arith)
            requires
                0 < w,
        ;
        lemma_over_identities(pix[p], lay[p]);
    }
    assert(spec_composite(pix, w, lay, w, h) =~= dir);
}

/// Compositing is a pure painter's algorithm: in a run of fully opaque
/// overlapping leaves, the last-drawn child wins every pixel it covers.
/// At any pixel inside the last child's shifted rectangle, the result
/// of rendering all children is exactly that child's paint.
pub proof fn lemma_painters_last_wins(
    s: Seq<Node>,
    ox: int,
    oy: int,
    budget: int,
    vp: ScreenSize,
    pix: Seq<Pixel>,
    pw: int,
    st: RenderState,
    p: int,
)
    requires
        s.len() > 0,
        opaque_leaves(s),
        !st.spec_is_fatal(),
        forall|q: int| 0 <= q < pix.len() ==> pixel_ok(#[trigger] pix[q]),
        0 <= p < pix.len(),
        ({
            let last = s[s.len() - 1];
            match last {
                Node::Path(pa) => crate::surface::spec_covered(
                    crate::render::spec_shift_rect(pa.rect, ox, oy),
                    pw,
                    p,
                ),
                Node::Image(im) => crate::surface::spec_covered(
                    crate::render::spec_shift_rect(im.rect, ox, oy),
                    pw,
                    p,
                ),
                Node::Group(_) => false,
            }
        }),
    ensures
        ({
            let out = spec_render_children(s, s.len() as int, ox, oy, budget, vp, pix, pw, st).0;
            match s[s.len() - 1] {
                Node::Path(pa) => out[p] == (Pixel {
                    r: pa.fill.red,
                    g: pa.fill.green,
                    b: pa.fill.blue,
                    a: 255,
                }),
                Node::Image(im) => out[p] == (Pixel {
                    r: im.fill.red,
                    g: im.fill.green,
                    b: im.fill.blue,
                    a: 255,
                }),
                Node::Group(_) => false,
            }
        }),
{
    let n = s.len() as int;
    lemma_leaf_fold_basics(s, n - 1, ox, oy, budget, vp, pix, pw, st);
    let r = spec_render_children(s, n - 1, ox, oy, budget, vp, pix, pw, st);
    assert(r.1 == st);
    let out = spec_render_children(s, n, ox, oy, budget, vp, pix, pw, st);
    assert(out == spec_render_node(s[n - 1], ox, oy, budget, vp, r.0, pw, r.1));
    match s[n - 1] {
        Node::Path(pa) => {
            assert(pa.opacity == 255);
            lemma_md_bounds(pa.fill.red as int, 255);
            lemma_md_bounds(pa.fill.green as int, 255);
            lemma_md_bounds(pa.fill.blue as int, 255);
            let src = spec_premultiply(pa.fill, 255);
            assert(src == (Pixel { r: pa.fill.red, g: pa.fill.green, b: pa.fill.blue, a: 255 }));
            let rect = crate::render::spec_shift_rect(pa.rect, ox, oy);
            assert(out.0 == spec_fill(r.0, pw, rect, src));
            assert(out.0[p] == spec_over(r.0[p], src));
            lemma_over_identities(r.0[p], src);
        },
        Node::Image(im) => {
            lemma_md_bounds(im.fill.red as int, 255);
            lemma_md_bounds(im.fill.green as int, 255);
            lemma_md_bounds(im.fill.blue as int, 255);
            let src = spec_premultiply(im.fill, 255);
            assert(src == (Pixel { r: im.fill.red, g: im.fill.green, b: im.fill.blue, a: 255 }));
            let rect = crate::render::spec_shift_rect(im.rect, ox, oy);
            assert(out.0 == spec_fill(r.0, pw, rect, src));
            assert(out.0[p] == spec_over(r.0[p], src));
            lemma_over_identities(r.0[p], src);
        },
        Node::Group(_) => {
            assert(false);
        },
    }
}

} // verus!
