//! A verified compositing pipeline for resolved vector-graphics scene trees.
//!
//! The crate takes a resolved scene tree — groups, leaf drawables, and the
//! shared mask/clip-path definitions they reference — and rasterizes it onto
//! an integer pixel surface: per-group isolation through offscreen layers,
//! luminance masking, clip stencils, group opacity, and painter's-algorithm
//! compositing, with cycle-safe deduplicated definition resolution and a
//! one-way fatal render state that aborts remaining work without unwinding.

use vstd::prelude::*;

pub mod cache;
pub mod clip;
pub mod geom;
pub mod laws;
pub mod layers;
pub mod mask;
pub mod state;
pub mod render;
pub mod surface;
pub mod tree;

verus! {

use crate::geom::{FitTo, ScreenSize, ViewBox};
use crate::layers::LAYER_BUDGET;
use crate::render::spec_render_node;
use crate::state::RenderState;
use crate::surface::{Color, Surface};
use crate::tree::{Node, node_wf};

/// Rendering options: the fit policy that sizes the output raster and
/// an optional background color (none meaning transparent). Neither
/// affects rendering onto a caller-supplied canvas.
pub struct Options {
    /// Fits the output image to the document's intrinsic size.
    pub fit_to: FitTo,
    /// The image background color; none means transparent.
    pub background: Option<Color>,
}

impl Default for Options {
    /// Original size, transparent background.
    fn default() -> (o: Options)
        ensures
            o.fit_to == FitTo::Original,
            o.background is None,
    {
        Options { fit_to: FitTo::Original, background: None }
    }
}

/// A resolved document: its intrinsic pixel size, the region of user
/// space it maps onto the output, and the root of its scene tree.
pub struct Tree {
    /// The document's intrinsic width, in pixels.
    pub width: u32,
    /// The document's intrinsic height, in pixels.
    pub height: u32,
    /// The region of user space mapped onto the output.
    pub view_box: ViewBox,
    /// The root node of the scene tree.
    pub root: Node,
}

impl Tree {
    /// Well-formedness: a valid view box and a well-formed scene tree.
    pub open spec fn wf(self) -> bool {
        self.view_box.rect.is_valid() && node_wf(self.root)
    }
}

/// The contents of a fresh render of `root` through a fresh state and a
/// full layer budget, over the given initial pixels.
pub open spec fn spec_rendered(
    root: Node,
    view_box: ViewBox,
    img_size: ScreenSize,
    pix: Seq<surface::Pixel>,
    pw: int,
) -> Seq<surface::Pixel> {
    spec_render_node(
        root,
        -view_box.rect.x as int,
        -view_box.rect.y as int,
        LAYER_BUDGET as int,
        img_size,
        pix,
        pw,
        RenderState::Ready,
    ).0
}

/// Renders a whole document to a new image: builds the root raster from
/// the intrinsic size, the fit policy and the background, then renders
/// the tree onto it. Returns nothing exactly when the fit policy yields
/// no usable size.
pub fn render_to_image(tree: &Tree, opt: &Options) -> (r: Option<Surface>)
    requires
        tree.wf(),
    ensures
        r is Some <==> opt.fit_to.spec_fit_ok(tree.width as int, tree.height as int),
        r matches Some(s) ==> {
            &&& s.wf()
            &&& s.width as int == opt.fit_to.spec_fit(tree.width as int, tree.height as int).0
            &&& s.height as int == opt.fit_to.spec_fit(tree.width as int, tree.height as int).1
            &&& s@ == spec_rendered(
                tree.root,
                tree.view_box,
                s.spec_size(),
                Seq::new(s@.len(), |i: int| Surface::spec_background(opt.background)),
                s.width as int,
            )
        },
{
    match render::create_root_image(tree.width, tree.height, opt.fit_to, opt.background) {
        None => None,
        Some((mut img, img_size)) => {
            proof {
                assert(img@ =~= Seq::new(
                    img@.len(),
                    |i: int| Surface::spec_background(opt.background),
                ));
            }
            render_to_canvas(tree, opt, img_size, &mut img);
            Some(img)
        },
    }
}

/// Renders a single subtree to a new image, with an implicit view box
/// equal to its bounding box. Returns nothing when the node draws
/// nothing — a zero-size bounding box — or when the fit policy yields
/// no usable size for the box.
pub fn render_node_to_image(node: &Node, opt: &Options) -> (r: Option<Surface>)
    requires
        node_wf(*node),
    ensures
        r is Some <==> (tree::spec_node_bbox(*node) matches Some(b)
            && opt.fit_to.spec_fit_ok(b.w as int, b.h as int)),
        r matches Some(s) ==> (tree::spec_node_bbox(*node) matches Some(b) && {
            &&& s.wf()
            &&& s.width as int == opt.fit_to.spec_fit(b.w as int, b.h as int).0
            &&& s.height as int == opt.fit_to.spec_fit(b.w as int, b.h as int).1
            &&& s@ == spec_rendered(
                *node,
                ViewBox { rect: b },
                s.spec_size(),
                Seq::new(s@.len(), |i: int| Surface::spec_background(opt.background)),
                s.width as int,
            )
        }),
{
    let node_bbox = match node.calculate_bbox() {
        Some(b) => b,
        None => {
            return None;
        },
    };
    let vbox = ViewBox { rect: node_bbox };
    let w: u32 = node_bbox.w as u32;
    let h: u32 = node_bbox.h as u32;
    match render::create_root_image(w, h, opt.fit_to, opt.background) {
        None => None,
        Some((mut img, img_size)) => {
            proof {
                assert(img@ =~= Seq::new(
                    img@.len(),
                    |i: int| Surface::spec_background(opt.background),
                ));
            }
            render_node_to_canvas(node, opt, vbox, img_size, &mut img);
            Some(img)
        },
    }
}

/// Renders a whole document onto a caller-supplied canvas at a
/// caller-supplied size. The fit policy and background do not apply
/// here; the canvas keeps its size and its existing contents below the
/// rendering.
pub fn render_to_canvas(tree: &Tree, opt: &Options, img_size: ScreenSize, canvas: &mut Surface)
    requires
        tree.wf(),
        img_size.is_valid(),
        old(canvas).wf(),
    ensures
        final(canvas).wf(),
        final(canvas).width == old(canvas).width,
        final(canvas).height == old(canvas).height,
        final(canvas)@ == spec_rendered(
            tree.root,
            tree.view_box,
            img_size,
            old(canvas)@,
            old(canvas).width as int,
        ),
{
    render_node_to_canvas(&tree.root, opt, tree.view_box, img_size, canvas);
}

/// Renders a single subtree onto a caller-supplied canvas: the entry
/// point of the traversal. A fresh render state and a full layer budget
/// are used; the state is discarded when the traversal returns.
pub fn render_node_to_canvas(
    node: &Node,
    opt: &Options,
    view_box: ViewBox,
    img_size: ScreenSize,
    canvas: &mut Surface,
)
    requires
        node_wf(*node),
        view_box.rect.is_valid(),
        img_size.is_valid(),
        old(canvas).wf(),
    ensures
        final(canvas).wf(),
        final(canvas).width == old(canvas).width,
        final(canvas).height == old(canvas).height,
        final(canvas)@ == spec_rendered(
            *node,
            view_box,
            img_size,
            old(canvas)@,
            old(canvas).width as int,
        ),
{
    let mut state = RenderState::Ready;
    let mut layers = layers::Layers::new(img_size);
    let ox = geom::sat_add(0, -view_box.rect.x);
    let oy = geom::sat_add(0, -view_box.rect.y);
    render::render_node(node, ox, oy, &mut layers, &mut state, canvas);
}

} // verus!
