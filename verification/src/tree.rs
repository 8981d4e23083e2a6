//! The scene graph model: a closed set of node kinds — groups and leaf
//! drawables — with the bounding-geometry query every node answers.

use vstd::prelude::*;
use std::rc::Rc;
use crate::geom::{
    Rect, MAX_COORD, spec_sat_add, sat_add, spec_clamp_bbox, clamp_bbox,
};
use crate::surface::Color;
use crate::mask::Mask;
use crate::clip::ClipPath;

verus! {

/// A coordinate-system mode of a mask or clip-path definition.
#[derive(Clone, Copy, Debug, PartialEq, Eq, Structural)]
pub enum Units {
    /// Values are hundredths of the referencing element's bounding box.
    ObjectBoundingBox,
    /// Values are absolute user-space coordinates.
    UserSpaceOnUse,
}

/// A translation applied by a group to its subtree.
#[derive(Clone, Copy, Debug, PartialEq, Eq, Structural)]
pub struct Transform {
    pub tx: i64,
    pub ty: i64,
}

impl Transform {
    /// Bounded so that offset arithmetic cannot overflow in one step.
    pub open spec fn is_valid(self) -> bool {
        -MAX_COORD <= self.tx <= MAX_COORD && -MAX_COORD <= self.ty <= MAX_COORD
    }

    /// The identity translation.
    pub fn identity() -> (t: Transform)
        ensures
            t == (Transform { tx: 0, ty: 0 }),
    {
        Transform { tx: 0, ty: 0 }
    }
}

/// A leaf drawable: an axis-aligned rectangle filled with one paint.
#[derive(Debug)]
pub struct Path {
    pub rect: Rect,
    pub fill: Color,
    pub opacity: u8,
}

/// A leaf raster placement, drawn as an opaque rectangle of one color.
#[derive(Debug)]
pub struct Image {
    pub rect: Rect,
    pub fill: Color,
}

/// A container node: its children are composited as a unit when any
/// isolating attribute (opacity, mask, clip path, filter) is present.
#[derive(Debug)]
pub struct Group {
    /// The translation applied to the subtree.
    pub transform: Transform,
    /// Group opacity, 255 meaning fully opaque.
    pub opacity: u8,
    /// An optional shared clip-path definition.
    pub clip_path: Option<Rc<ClipPath>>,
    /// An optional shared mask definition.
    pub mask: Option<Rc<Mask>>,
    /// References to filter definitions, applied by an external
    /// collaborator; here they only force isolation.
    pub filters: Vec<u64>,
    /// The children, painted in document order: later over earlier.
    pub children: Vec<Node>,
}

impl Default for Group {
    /// An empty group with no isolating attribute.
    fn default() -> (g: Group)
        ensures
            g.transform == (Transform { tx: 0, ty: 0 }),
            g.opacity == 255,
            g.clip_path is None,
            g.mask is None,
            g.filters@.len() == 0,
            g.children@.len() == 0,
    {
        Group {
            transform: Transform { tx: 0, ty: 0 },
            opacity: 255,
            clip_path: None,
            mask: None,
            filters: Vec::new(),
            children: Vec::new(),
        }
    }
}

/// A node of the scene tree: the closed set of kinds the compositor
/// dispatches over.
#[derive(Debug)]
pub enum Node {
    Group(Group),
    Path(Path),
    Image(Image),
}

/// Well-formedness of a node: geometry in range, and every referenced
/// mask and clip-path definition well-formed in turn.
pub open spec fn node_wf(n: Node) -> bool
    decreases n, 1int,
{
    match n {
        Node::Path(p) => p.rect.is_valid(),
        Node::Image(im) => im.rect.is_valid(),
        Node::Group(g) => group_wf(g),
    }
}

/// Well-formedness of a group and of everything it references.
pub open spec fn group_wf(g: Group) -> bool
    decreases g, 0int,
{
    &&& g.transform.is_valid()
    &&& (forall|i: int|
        0 <= i < g.children@.len() ==> node_wf(#[trigger] g.children@[i]))
    &&& (g.mask matches Some(m) ==> mask_wf(*m))
    &&& (g.clip_path matches Some(c) ==> clip_wf(*c))
}

/// Well-formedness of a mask definition: a valid region rectangle, a
/// non-empty group as content root, and a well-formed chain.
pub open spec fn mask_wf(m: Mask) -> bool
    decreases m, 2int,
{
    &&& m.rect.is_valid()
    &&& (*m.root matches Node::Group(g) && g.children@.len() > 0)
    &&& node_wf(*m.root)
    &&& (m.mask matches Some(link) ==> mask_wf(*link))
}

/// Well-formedness of a clip-path definition, of the same shape as a
/// mask's.
pub open spec fn clip_wf(c: ClipPath) -> bool
    decreases c, 2int,
{
    &&& c.rect.is_valid()
    &&& (*c.root matches Node::Group(g) && g.children@.len() > 0)
    &&& node_wf(*c.root)
    &&& (c.clip_path matches Some(link) ==> clip_wf(*link))
}

/// The union of two optional corner-form boxes `(x1, y1, x2, y2)`.
pub open spec fn spec_box_union(
    a: Option<(int, int, int, int)>,
    b: Option<(int, int, int, int)>,
) -> Option<(int, int, int, int)> {
    match (a, b) {
        (None, None) => None,
        (Some(x), None) => Some(x),
        (None, Some(y)) => Some(y),
        (Some(x), Some(y)) => Some(
            (
                if x.0 <= y.0 {
                    x.0
                } else {
                    y.0
                },
                if x.1 <= y.1 {
                    x.1
                } else {
                    y.1
                },
                if x.2 >= y.2 {
                    x.2
                } else {
                    y.2
                },
                if x.3 >= y.3 {
                    x.3
                } else {
                    y.3
                },
            ),
        ),
    }
}

/// The corner-form bounding box of a node's drawable geometry, with
/// saturating coordinate arithmetic; masks and clips do not contribute.
pub open spec fn spec_corners(n: Node) -> Option<(int, int, int, int)>
    decreases n, 1int,
{
    match n {
        Node::Path(p) => Some(
            (
                p.rect.x as int,
                p.rect.y as int,
                spec_sat_add(p.rect.x as int, p.rect.w as int),
                spec_sat_add(p.rect.y as int, p.rect.h as int),
            ),
        ),
        Node::Image(im) => Some(
            (
                im.rect.x as int,
                im.rect.y as int,
                spec_sat_add(im.rect.x as int, im.rect.w as int),
                spec_sat_add(im.rect.y as int, im.rect.h as int),
            ),
        ),
        Node::Group(g) => match spec_children_corners(g.children@, g.children@.len() as int) {
            None => None,
            Some(b) => Some(
                (
                    spec_sat_add(b.0, g.transform.tx as int),
                    spec_sat_add(b.1, g.transform.ty as int),
                    spec_sat_add(b.2, g.transform.tx as int),
                    spec_sat_add(b.3, g.transform.ty as int),
                ),
            ),
        },
    }
}

/// The union of the corner boxes of the first `i` nodes of a sequence.
pub open spec fn spec_children_corners(s: Seq<Node>, i: int) -> Option<(int, int, int, int)>
    decreases s, i,
{
    if i <= 0 || i > s.len() {
        None
    } else {
        spec_box_union(spec_children_corners(s, i - 1), spec_corners(s[i - 1]))
    }
}

/// The bounding box of a node as a rectangle: the corner box clamped to
/// the reporting window, or nothing when the node draws nothing or the
/// clamped box is degenerate.
pub open spec fn spec_node_bbox(n: Node) -> Option<Rect> {
    match spec_corners(n) {
        None => None,
        Some(b) => {
            let x1 = spec_clamp_bbox(b.0);
            let y1 = spec_clamp_bbox(b.1);
            let x2 = spec_clamp_bbox(b.2);
            let y2 = spec_clamp_bbox(b.3);
            if x1 < x2 && y1 < y2 {
                Some(Rect { x: x1 as i64, y: y1 as i64, w: (x2 - x1) as i64, h: (y2 - y1) as i64 })
            } else {
                None
            }
        },
    }
}

/// Unions two optional corner boxes.
fn box_union(
    a: Option<(i64, i64, i64, i64)>,
    b: Option<(i64, i64, i64, i64)>,
) -> (r: Option<(i64, i64, i64, i64)>)
    ensures
        box_opt_view(r) == spec_box_union(box_opt_view(a), box_opt_view(b)),
{
    match (a, b) {
        (None, None) => None,
        (Some(x), None) => Some(x),
        (None, Some(y)) => Some(y),
        (Some(x), Some(y)) => Some(
            (
                if x.0 <= y.0 {
                    x.0
                } else {
                    y.0
                },
                if x.1 <= y.1 {
                    x.1
                } else {
                    y.1
                },
                if x.2 >= y.2 {
                    x.2
                } else {
                    y.2
                },
                if x.3 >= y.3 {
                    x.3
                } else {
                    y.3
                },
            ),
        ),
    }
}

/// The mathematical value of an optional corner box.
pub open spec fn box_opt_view(b: Option<(i64, i64, i64, i64)>) -> Option<(int, int, int, int)> {
    match b {
        None => None,
        Some(t) => Some((t.0 as int, t.1 as int, t.2 as int, t.3 as int)),
    }
}

/// Computes the corner-form bounding box of a node.
fn corners(n: &Node) -> (r: Option<(i64, i64, i64, i64)>)
    ensures
        box_opt_view(r) == spec_corners(*n),
    decreases *n, 1int,
{
    match n {
        Node::Path(p) => Some(
            (p.rect.x, p.rect.y, sat_add(p.rect.x, p.rect.w), sat_add(p.rect.y, p.rect.h)),
        ),
        Node::Image(im) => Some(
            (im.rect.x, im.rect.y, sat_add(im.rect.x, im.rect.w), sat_add(im.rect.y, im.rect.h)),
        ),
        Node::Group(g) => {
            let n_children: usize = g.children.len();
            let mut acc: Option<(i64, i64, i64, i64)> = None;
            let mut i: usize = 0;
            while i < n_children
                invariant
                    *n matches Node::Group(gg) && gg == *g,
                    n_children == g.children@.len(),
                    i <= n_children,
                    box_opt_view(acc) == spec_children_corners(g.children@, i as int),
                decreases n_children - i,
            {
                proof {
                    assert(decreases_to!(*n => g.children@[i as int]));
                }
                let c = corners(&g.children[i]);
                acc = box_union(acc, c);
                i = i + 1;
            }
            match acc {
                None => None,
                Some(b) => Some(
                    (
                        sat_add(b.0, g.transform.tx),
                        sat_add(b.1, g.transform.ty),
                        sat_add(b.2, g.transform.tx),
                        sat_add(b.3, g.transform.ty),
                    ),
                ),
            }
        },
    }
}

impl Node {
    /// The node's bounding box, or nothing when the node draws nothing
    /// or its box collapses under the reporting window.
    pub fn calculate_bbox(&self) -> (r: Option<Rect>)
        ensures
            r == spec_node_bbox(*self),
            r matches Some(b) ==> b.is_valid(),
    {
        match corners(self) {
            None => None,
            Some(b) => {
                let x1 = clamp_bbox(b.0);
                let y1 = clamp_bbox(b.1);
                let x2 = clamp_bbox(b.2);
                let y2 = clamp_bbox(b.3);
                if x1 < x2 && y1 < y2 {
                    Some(Rect { x: x1, y: y1, w: x2 - x1, h: y2 - y1 })
                } else {
                    None
                }
            },
        }
    }

    /// Whether the node is a group with at least one child: the
    /// content-validity test of mask and clip-path resolution.
    pub fn has_children(&self) -> (b: bool)
        ensures
            b == (*self matches Node::Group(g) && g.children@.len() > 0),
    {
        match self {
            Node::Group(g) => g.children.len() > 0,
            _ => false,
        }
    }
}

} // verus!
