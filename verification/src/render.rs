//! The compositor: the recursive traversal that paints a scene tree onto
//! a surface. For each node it checks the render state, decides whether
//! isolation is needed, draws either directly or into a fresh
//! viewport-sized layer, applies clip, mask chain and opacity to the
//! layer, and composites it back — and the mathematical model of exactly
//! that, which every executable function here is proved to match.

use vstd::prelude::*;
use crate::geom::{Rect, ScreenSize, ViewBox, FitTo, spec_sat_add, sat_add};
use crate::surface::{
    Surface, Pixel, Color, transparent, spec_fill, spec_composite, spec_apply_mask,
    spec_apply_clip, spec_apply_opacity, spec_clear_outside, spec_premultiply,
};
use crate::tree::{Node, Group, Units, node_wf, group_wf, mask_wf, clip_wf, spec_node_bbox};
use crate::mask::Mask;
use crate::clip::ClipPath;
use crate::state::{RenderState, FatalReason};
use crate::layers::Layers;

verus! {

/// A rectangle translated by an offset, with saturating arithmetic.
pub open spec fn spec_shift_rect(r: Rect, ox: int, oy: int) -> Rect {
    Rect {
        x: spec_sat_add(r.x as int, ox) as i64,
        y: spec_sat_add(r.y as int, oy) as i64,
        w: r.w,
        h: r.h,
    }
}

/// Translates a rectangle by an offset, saturating.
pub fn shift_rect(r: Rect, ox: i64, oy: i64) -> (out: Rect)
    ensures
        out == spec_shift_rect(r, ox as int, oy as int),
{
    Rect { x: sat_add(r.x, ox), y: sat_add(r.y, oy), w: r.w, h: r.h }
}

/// `w * v / 100`, rounding toward zero: how a bounding-box-relative
/// value in hundredths maps to user space.
pub open spec fn spec_mul_frac(w: int, v: int) -> int {
    if v >= 0 {
        w * v / 100
    } else {
        -(w * (-v) / 100)
    }
}

/// Computes `w * v / 100` for a box extent `w` and a value in
/// hundredths `v`, rounding toward zero.
pub fn mul_frac(w: i64, v: i64) -> (r: i64)
    requires
        0 <= w <= 2 * crate::geom::MAX_COORD,
        -crate::geom::MAX_COORD <= v <= crate::geom::MAX_COORD,
    ensures
        r as int == spec_mul_frac(w as int, v as int),
{
    if v >= 0 {
        proof {
            assert(0 <= w as int * v as int <= 2_000_000 * 1_000_000) by (nonlinear_arith)
                requires
                    0 <= w <= 2_000_000,
                    0 <= v <= 1_000_000,
            ;
        }
        (w * v) / 100
    } else {
        proof {
            assert(0 <= w as int * (-v as int) <= 2_000_000 * 1_000_000) by (nonlinear_arith)
                requires
                    0 <= w <= 2_000_000,
                    0 < -v as int <= 1_000_000,
            ;
        }
        -((w * (-v)) / 100)
    }
}

/// The pixel-space region of a mask or clip-path definition: its
/// rectangle mapped through its units — against the referencing
/// element's bounding box, or directly into user space — and the
/// current offset. A bounding-box-relative region without a bounding
/// box is empty.
pub open spec fn spec_region(
    units: Units,
    r: Rect,
    bbox_px: Option<Rect>,
    ox: int,
    oy: int,
) -> Rect {
    match units {
        Units::UserSpaceOnUse => spec_shift_rect(r, ox, oy),
        Units::ObjectBoundingBox => match bbox_px {
            None => Rect { x: 0, y: 0, w: 0, h: 0 },
            Some(b) => Rect {
                x: spec_sat_add(b.x as int, spec_mul_frac(b.w as int, r.x as int)) as i64,
                y: spec_sat_add(b.y as int, spec_mul_frac(b.h as int, r.y as int)) as i64,
                w: spec_mul_frac(b.w as int, r.w as int) as i64,
                h: spec_mul_frac(b.h as int, r.h as int) as i64,
            },
        },
    }
}

/// Computes the pixel-space region of a definition; `bbox_px` is the
/// referencing element's bounding box already in pixel space.
fn region_rect(units: Units, r: Rect, bbox_px: Option<Rect>, ox: i64, oy: i64) -> (out: Rect)
    requires
        r.is_valid(),
        bbox_px matches Some(b) ==> 0 < b.w <= 2 * crate::geom::MAX_COORD && 0 < b.h <= 2
            * crate::geom::MAX_COORD,
    ensures
        out == spec_region(units, r, bbox_px, ox as int, oy as int),
{
    match units {
        Units::UserSpaceOnUse => shift_rect(r, ox, oy),
        Units::ObjectBoundingBox => match bbox_px {
            None => Rect { x: 0, y: 0, w: 0, h: 0 },
            Some(b) => Rect {
                x: sat_add(b.x, mul_frac(b.w, r.x)),
                y: sat_add(b.y, mul_frac(b.h, r.y)),
                w: mul_frac(b.w, r.w),
                h: mul_frac(b.h, r.h),
            },
        },
    }
}

/// Whether a group must be rendered through an offscreen layer: true
/// exactly when its opacity is below one, it references a mask, it
/// references a clip path, or it references at least one filter.
pub open spec fn spec_requires_isolation(g: Group) -> bool {
    g.opacity < 255 || g.mask is Some || g.clip_path is Some || g.filters@.len() > 0
}

/// Tests whether a group needs isolation; the compositor takes the
/// direct path exactly when this is false.
pub fn requires_isolation(g: &Group) -> (b: bool)
    ensures
        b == spec_requires_isolation(*g),
{
    g.opacity < 255 || g.mask.is_some() || g.clip_path.is_some() || g.filters.len() > 0
}

/// The contents of a freshly allocated viewport-sized layer.
pub open spec fn spec_transparent_layer(vp: ScreenSize) -> Seq<Pixel> {
    Seq::new((vp.width as int * vp.height as int) as nat, |i: int| transparent())
}

/// The group's bounding box carried into pixel space.
pub open spec fn spec_bbox_px(n: Node, ox: int, oy: int) -> Option<Rect> {
    match spec_node_bbox(n) {
        None => None,
        Some(b) => Some(spec_shift_rect(b, ox, oy)),
    }
}

/// What rendering one node does to a target: the pair of the target's
/// new contents and the new render state. A fatal state at entry leaves
/// both untouched.
pub open spec fn spec_render_node(
    n: Node,
    ox: int,
    oy: int,
    budget: int,
    vp: ScreenSize,
    pix: Seq<Pixel>,
    pw: int,
    st: RenderState,
) -> (Seq<Pixel>, RenderState)
    decreases n, 3int,
{
    if st.spec_is_fatal() {
        (pix, st)
    } else {
        match n {
            Node::Path(p) => (
                spec_fill(
                    pix,
                    pw,
                    spec_shift_rect(p.rect, ox, oy),
                    spec_premultiply(p.fill, p.opacity as int),
                ),
                st,
            ),
            Node::Image(im) => (
                spec_fill(pix, pw, spec_shift_rect(im.rect, ox, oy), spec_premultiply(im.fill, 255)),
                st,
            ),
            Node::Group(g) => spec_render_group(
                g,
                spec_bbox_px(n, ox, oy),
                ox,
                oy,
                budget,
                vp,
                pix,
                pw,
                st,
            ),
        }
    }
}

/// What rendering the first `i` children, in document order, does to a
/// target: the painter's algorithm itself — each child paints over what
/// the previous ones left.
pub open spec fn spec_render_children(
    s: Seq<Node>,
    i: int,
    ox: int,
    oy: int,
    budget: int,
    vp: ScreenSize,
    pix: Seq<Pixel>,
    pw: int,
    st: RenderState,
) -> (Seq<Pixel>, RenderState)
    decreases s, i,
{
    if i <= 0 || i > s.len() {
        (pix, st)
    } else {
        let r = spec_render_children(s, i - 1, ox, oy, budget, vp, pix, pw, st);
        spec_render_node(s[i - 1], ox, oy, budget, vp, r.0, pw, r.1)
    }
}

/// What rendering a group does to a target. Without isolation the
/// children land directly on the target; with isolation they land on a
/// fresh transparent layer which then receives clip, mask chain and
/// opacity before being composited back. A spent layer budget is the
/// fatal condition; once the state is fatal nothing further lands on
/// the target.
pub open spec fn spec_render_group(
    g: Group,
    bbox_px: Option<Rect>,
    ox: int,
    oy: int,
    budget: int,
    vp: ScreenSize,
    pix: Seq<Pixel>,
    pw: int,
    st: RenderState,
) -> (Seq<Pixel>, RenderState)
    decreases g, 2int,
{
    let ox2 = spec_sat_add(ox, g.transform.tx as int);
    let oy2 = spec_sat_add(oy, g.transform.ty as int);
    if !spec_requires_isolation(g) {
        spec_render_children(g.children@, g.children@.len() as int, ox2, oy2, budget, vp, pix, pw, st)
    } else if budget <= 0 {
        (pix, RenderState::Fatal(FatalReason::LayerAllocation))
    } else {
        let r1 = spec_render_children(
            g.children@,
            g.children@.len() as int,
            ox2,
            oy2,
            budget - 1,
            vp,
            spec_transparent_layer(vp),
            vp.width as int,
            st,
        );
        if r1.1.spec_is_fatal() {
            (pix, r1.1)
        } else {
            let r2 = match g.clip_path {
                Some(c) => spec_apply_clip_chain(*c, bbox_px, ox2, oy2, budget - 1, vp, r1.0, r1.1),
                None => r1,
            };
            if r2.1.spec_is_fatal() {
                (pix, r2.1)
            } else {
                let r3 = match g.mask {
                    Some(m) => spec_apply_mask_chain(
                        *m,
                        bbox_px,
                        ox2,
                        oy2,
                        budget - 1,
                        vp,
                        r2.0,
                        r2.1,
                    ),
                    None => r2,
                };
                if r3.1.spec_is_fatal() {
                    (pix, r3.1)
                } else {
                    let lay = if g.opacity < 255 {
                        spec_apply_opacity(r3.0, g.opacity as int)
                    } else {
                        r3.0
                    };
                    (
                        spec_composite(pix, pw, lay, vp.width as int, vp.height as int),
                        r3.1,
                    )
                }
            }
        }
    }
}

/// What applying one mask — and its chain — does to an isolation layer:
/// the mask content is rendered into a fresh layer, confined to the
/// mask's region, converted to luminance and multiplied into the layer;
/// each chained mask multiplies further.
pub open spec fn spec_apply_mask_chain(
    m: Mask,
    bbox_px: Option<Rect>,
    ox: int,
    oy: int,
    budget: int,
    vp: ScreenSize,
    lay: Seq<Pixel>,
    st: RenderState,
) -> (Seq<Pixel>, RenderState)
    decreases m, 2int,
{
    if budget <= 0 {
        (lay, RenderState::Fatal(FatalReason::LayerAllocation))
    } else {
        let cox = spec_content_offset(m.content_units, bbox_px, ox);
        let coy = spec_content_offset_y(m.content_units, bbox_px, oy);
        let r1 = spec_render_node(
            *m.root,
            cox,
            coy,
            budget - 1,
            vp,
            spec_transparent_layer(vp),
            vp.width as int,
            st,
        );
        if r1.1.spec_is_fatal() {
            (lay, r1.1)
        } else {
            let region = spec_region(m.units, m.rect, bbox_px, ox, oy);
            let mcontent = spec_clear_outside(r1.0, vp.width as int, region);
            let lay2 = spec_apply_mask(lay, mcontent);
            match m.mask {
                None => (lay2, r1.1),
                Some(link) => spec_apply_mask_chain(*link, bbox_px, ox, oy, budget, vp, lay2, r1.1),
            }
        }
    }
}

/// What applying one clip path — and its chain — does to an isolation
/// layer: the clip geometry is rendered into a fresh stencil, confined
/// to the clip's region, and its alpha coverage multiplied into the
/// layer; each chained clip intersects further.
pub open spec fn spec_apply_clip_chain(
    c: ClipPath,
    bbox_px: Option<Rect>,
    ox: int,
    oy: int,
    budget: int,
    vp: ScreenSize,
    lay: Seq<Pixel>,
    st: RenderState,
) -> (Seq<Pixel>, RenderState)
    decreases c, 2int,
{
    if budget <= 0 {
        (lay, RenderState::Fatal(FatalReason::LayerAllocation))
    } else {
        let r1 = spec_render_node(
            *c.root,
            ox,
            oy,
            budget - 1,
            vp,
            spec_transparent_layer(vp),
            vp.width as int,
            st,
        );
        if r1.1.spec_is_fatal() {
            (lay, r1.1)
        } else {
            let region = spec_region(c.units, c.rect, bbox_px, ox, oy);
            let stencil = spec_clear_outside(r1.0, vp.width as int, region);
            let lay2 = spec_apply_clip(lay, stencil);
            match c.clip_path {
                None => (lay2, r1.1),
                Some(link) => spec_apply_clip_chain(*link, bbox_px, ox, oy, budget, vp, lay2, r1.1),
            }
        }
    }
}

/// Where a definition's content subtree is placed: at the current
/// offset for user-space content, at the bounding box's origin for
/// bounding-box-relative content.
pub open spec fn spec_content_offset(units: Units, bbox_px: Option<Rect>, ox: int) -> int {
    match units {
        Units::UserSpaceOnUse => ox,
        Units::ObjectBoundingBox => match bbox_px {
            None => ox,
            Some(b) => b.x as int,
        },
    }
}

/// The vertical counterpart of `spec_content_offset`.
pub open spec fn spec_content_offset_y(units: Units, bbox_px: Option<Rect>, oy: int) -> int {
    match units {
        Units::UserSpaceOnUse => oy,
        Units::ObjectBoundingBox => match bbox_px {
            None => oy,
            Some(b) => b.y as int,
        },
    }
}

/// Computes where a definition's content subtree is placed.
fn content_offsets(units: Units, bbox_px: Option<Rect>, ox: i64, oy: i64) -> (r: (i64, i64))
    ensures
        r.0 as int == spec_content_offset(units, bbox_px, ox as int),
        r.1 as int == spec_content_offset_y(units, bbox_px, oy as int),
{
    match units {
        Units::UserSpaceOnUse => (ox, oy),
        Units::ObjectBoundingBox => match bbox_px {
            None => (ox, oy),
            Some(b) => (b.x, b.y),
        },
    }
}

/// The bound a referencing element's pixel-space bounding box obeys.
pub open spec fn bbox_px_ok(bbox_px: Option<Rect>) -> bool {
    bbox_px matches Some(b) ==> 0 < b.w <= crate::geom::MAX_COORD && 0 < b.h
        <= crate::geom::MAX_COORD
}

/// Renders one node onto the target: the recursive traversal itself.
/// A fatal state at entry makes this a no-op; the layer budget is
/// restored before returning on every path.
pub fn render_node(
    node: &Node,
    ox: i64,
    oy: i64,
    layers: &mut Layers,
    st: &mut RenderState,
    target: &mut Surface,
)
    requires
        node_wf(*node),
        old(target).wf(),
        old(layers).wf(),
    ensures
        final(target).wf(),
        final(target).width == old(target).width,
        final(target).height == old(target).height,
        *final(layers) == *old(layers),
        ({
            let r = spec_render_node(
                *node,
                ox as int,
                oy as int,
                old(layers).available as int,
                old(layers).size,
                old(target)@,
                old(target).width as int,
                *old(st),
            );
            final(target)@ == r.0 && *final(st) == r.1
        }),
    decreases *node, 3int,
{
    if st.is_fatal() {
        return ;
    }
    match node {
        Node::Path(p) => {
            let r = shift_rect(p.rect, ox, oy);
            target.fill_rect(r, p.fill, p.opacity);
        },
        Node::Image(im) => {
            let r = shift_rect(im.rect, ox, oy);
            target.fill_rect(r, im.fill, 255);
        },
        Node::Group(g) => {
            let bbox_px: Option<Rect> = match node.calculate_bbox() {
                None => None,
                Some(b) => Some(shift_rect(b, ox, oy)),
            };
            proof {
                assert(decreases_to!(*node => *g));
            }
            render_group(g, bbox_px, ox, oy, layers, st, target);
        },
    }
}

/// Renders the children of a group, in document order, onto the target.
fn render_children(
    children: &Vec<Node>,
    ox: i64,
    oy: i64,
    layers: &mut Layers,
    st: &mut RenderState,
    target: &mut Surface,
)
    requires
        forall|i: int| 0 <= i < children@.len() ==> node_wf(#[trigger] children@[i]),
        old(target).wf(),
        old(layers).wf(),
    ensures
        final(target).wf(),
        final(target).width == old(target).width,
        final(target).height == old(target).height,
        *final(layers) == *old(layers),
        ({
            let r = spec_render_children(
                children@,
                children@.len() as int,
                ox as int,
                oy as int,
                old(layers).available as int,
                old(layers).size,
                old(target)@,
                old(target).width as int,
                *old(st),
            );
            final(target)@ == r.0 && *final(st) == r.1
        }),
    decreases children@, 1int,
{
    let n: usize = children.len();
    let mut i: usize = 0;
    while i < n
        invariant
            forall|j: int| 0 <= j < children@.len() ==> node_wf(#[trigger] children@[j]),
            n == children@.len(),
            i <= n,
            target.wf(),
            target.width == old(target).width,
            target.height == old(target).height,
            *layers == *old(layers),
            layers.wf(),
            ({
                let r = spec_render_children(
                    children@,
                    i as int,
                    ox as int,
                    oy as int,
                    old(layers).available as int,
                    old(layers).size,
                    old(target)@,
                    old(target).width as int,
                    *old(st),
                );
                target@ == r.0 && *st == r.1
            }),
        decreases n - i,
    {
        proof {
            assert(decreases_to!(children@ => children@[i as int]));
        }
        render_node(&children[i], ox, oy, layers, st, target);
        i = i + 1;
    }
}

/// Renders a group onto the target, isolating it through an offscreen
/// layer when any of opacity, mask, clip path or filters requires it.
fn render_group(
    g: &Group,
    bbox_px: Option<Rect>,
    ox: i64,
    oy: i64,
    layers: &mut Layers,
    st: &mut RenderState,
    target: &mut Surface,
)
    requires
        group_wf(*g),
        bbox_px_ok(bbox_px),
        old(target).wf(),
        old(layers).wf(),
    ensures
        final(target).wf(),
        final(target).width == old(target).width,
        final(target).height == old(target).height,
        *final(layers) == *old(layers),
        ({
            let r = spec_render_group(
                *g,
                bbox_px,
                ox as int,
                oy as int,
                old(layers).available as int,
                old(layers).size,
                old(target)@,
                old(target).width as int,
                *old(st),
            );
            final(target)@ == r.0 && *final(st) == r.1
        }),
    decreases *g, 2int,
{
    let ox2 = sat_add(ox, g.transform.tx);
    let oy2 = sat_add(oy, g.transform.ty);
    if !requires_isolation(g) {
        render_children(&g.children, ox2, oy2, layers, st, target);
        return ;
    }
    match layers.acquire() {
        None => {
            st.set_fatal(FatalReason::LayerAllocation);
        },
        Some(mut layer) => {
            proof {
                assert(layer@ =~= spec_transparent_layer(old(layers).size));
            }
            render_children(&g.children, ox2, oy2, layers, st, &mut layer);
            if !st.is_fatal() {
                match &g.clip_path {
                    Some(c) => {
                        proof {
                            assert(decreases_to!(*g => **c));
                        }
                        apply_clip_chain(&*c, bbox_px, ox2, oy2, layers, st, &mut layer);
                    },
                    None => {},
                }
                if !st.is_fatal() {
                    match &g.mask {
                        Some(m) => {
                            proof {
                                assert(decreases_to!(*g => **m));
                            }
                            apply_mask_chain(&*m, bbox_px, ox2, oy2, layers, st, &mut layer);
                        },
                        None => {},
                    }
                    if !st.is_fatal() {
                        if g.opacity < 255 {
                            layer.apply_opacity(g.opacity);
                        }
                        target.composite(&layer);
                    }
                }
            }
            layers.release();
        },
    }
}

/// Applies a mask definition and its chain to an isolation layer: the
/// mask content is rendered into a fresh layer, confined to the mask's
/// region, and its luminance multiplied into the layer's alpha.
fn apply_mask_chain(
    m: &Mask,
    bbox_px: Option<Rect>,
    ox: i64,
    oy: i64,
    layers: &mut Layers,
    st: &mut RenderState,
    lay: &mut Surface,
)
    requires
        mask_wf(*m),
        bbox_px_ok(bbox_px),
        old(lay).wf(),
        old(layers).wf(),
        old(lay).spec_size() == old(layers).size,
    ensures
        final(lay).wf(),
        final(lay).width == old(lay).width,
        final(lay).height == old(lay).height,
        *final(layers) == *old(layers),
        ({
            let r = spec_apply_mask_chain(
                *m,
                bbox_px,
                ox as int,
                oy as int,
                old(layers).available as int,
                old(layers).size,
                old(lay)@,
                *old(st),
            );
            final(lay)@ == r.0 && *final(st) == r.1
        }),
    decreases *m, 2int,
{
    match layers.acquire() {
        None => {
            st.set_fatal(FatalReason::LayerAllocation);
        },
        Some(mut mlayer) => {
            proof {
                assert(mlayer@ =~= spec_transparent_layer(old(layers).size));
            }
            let offs = content_offsets(m.content_units, bbox_px, ox, oy);
            proof {
                assert(decreases_to!(*m => *m.root));
            }
            render_node(&*m.root, offs.0, offs.1, layers, st, &mut mlayer);
            if !st.is_fatal() {
                let region = region_rect(m.units, m.rect, bbox_px, ox, oy);
                mlayer.clear_outside(region);
                lay.apply_mask(&mlayer);
                layers.release();
                match &m.mask {
                    Some(link) => {
                        proof {
                            assert(decreases_to!(*m => **link));
                        }
                        apply_mask_chain(&*link, bbox_px, ox, oy, layers, st, lay);
                    },
                    None => {},
                }
            } else {
                layers.release();
            }
        },
    }
}

/// Builds the root raster for a render: applies the fit policy to the
/// document's intrinsic size, allocates a surface of the effective
/// size pre-filled with the background (or transparent), and returns
/// both. Returns nothing — never a zero-size surface — exactly when the
/// policy yields no usable size, in particular for an empty intrinsic
/// size.
pub fn create_root_image(width: u32, height: u32, fit_to: FitTo, background: Option<Color>) -> (r:
    Option<(Surface, ScreenSize)>)
    ensures
        r is Some <==> fit_to.spec_fit_ok(width as int, height as int),
        width == 0 || height == 0 ==> r is None,
        r matches Some((s, sz)) ==> {
            &&& sz.is_valid()
            &&& sz.width as int == fit_to.spec_fit(width as int, height as int).0
            &&& sz.height as int == fit_to.spec_fit(width as int, height as int).1
            &&& s.wf()
            &&& s.spec_size() == sz
            &&& forall|i: int|
                0 <= i < s@.len() ==> s@[i] == Surface::spec_background(background)
        },
{
    match fit_to.fit_to(width, height) {
        None => None,
        Some(sz) => Some((Surface::new(sz, background), sz)),
    }
}

/// Applies a clip-path definition and its chain to an isolation layer:
/// the clip geometry is rendered into a fresh stencil, confined to the
/// clip's region, and its alpha coverage multiplied into the layer.
fn apply_clip_chain(
    c: &ClipPath,
    bbox_px: Option<Rect>,
    ox: i64,
    oy: i64,
    layers: &mut Layers,
    st: &mut RenderState,
    lay: &mut Surface,
)
    requires
        clip_wf(*c),
        bbox_px_ok(bbox_px),
        old(lay).wf(),
        old(layers).wf(),
        old(lay).spec_size() == old(layers).size,
    ensures
        final(lay).wf(),
        final(lay).width == old(lay).width,
        final(lay).height == old(lay).height,
        *final(layers) == *old(layers),
        ({
            let r = spec_apply_clip_chain(
                *c,
                bbox_px,
                ox as int,
                oy as int,
                old(layers).available as int,
                old(layers).size,
                old(lay)@,
                *old(st),
            );
            final(lay)@ == r.0 && *final(st) == r.1
        }),
    decreases *c, 2int,
{
    match layers.acquire() {
        None => {
            st.set_fatal(FatalReason::LayerAllocation);
        },
        Some(mut stencil) => {
            proof {
                assert(stencil@ =~= spec_transparent_layer(old(layers).size));
            }
            proof {
                assert(decreases_to!(*c => *c.root));
            }
            render_node(&*c.root, ox, oy, layers, st, &mut stencil);
            if !st.is_fatal() {
                let region = region_rect(c.units, c.rect, bbox_px, ox, oy);
                stencil.clear_outside(region);
                lay.apply_clip(&stencil);
                layers.release();
                match &c.clip_path {
                    Some(link) => {
                        proof {
                            assert(decreases_to!(*c => **link));
                        }
                        apply_clip_chain(&*link, bbox_px, ox, oy, layers, st, lay);
                    },
                    None => {},
                }
            } else {
                layers.release();
            }
        },
    }
}

} // verus!
