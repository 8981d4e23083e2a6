//! Integer geometry: pixel sizes, user-space rectangles, and the fit policy
//! that maps a document's intrinsic size to an output raster size.

use vstd::prelude::*;

verus! {

/// Largest pixel dimension a surface may have.
pub const MAX_DIM: u32 = 4096;

/// Largest magnitude of a user-space coordinate or rectangle extent.
pub const MAX_COORD: i64 = 1_000_000;

/// A non-empty pixel size, as used for surfaces and viewports.
#[derive(Clone, Copy, Debug, PartialEq, Eq, Structural)]
pub struct ScreenSize {
    pub width: u32,
    pub height: u32,
}

impl ScreenSize {
    /// A size is usable when both dimensions are positive and small enough
    /// that `width * height` pixels can be allocated.
    pub open spec fn is_valid(self) -> bool {
        0 < self.width <= MAX_DIM && 0 < self.height <= MAX_DIM
    }

    /// Builds a size, rejecting empty or oversized dimensions.
    pub fn new(width: u32, height: u32) -> (r: Option<ScreenSize>)
        ensures
            r is Some <==> (0 < width <= MAX_DIM && 0 < height <= MAX_DIM),
            r matches Some(s) ==> s == (ScreenSize { width, height }) && s.is_valid(),
    {
        if 0 < width && width <= MAX_DIM && 0 < height && height <= MAX_DIM {
            Some(ScreenSize { width, height })
        } else {
            None
        }
    }
}

/// An axis-aligned user-space rectangle with positive extent.
#[derive(Clone, Copy, Debug, PartialEq, Eq, Structural)]
pub struct Rect {
    pub x: i64,
    pub y: i64,
    pub w: i64,
    pub h: i64,
}

impl Rect {
    /// A rectangle is usable when its extent is positive and every
    /// coordinate is small enough for overflow-free arithmetic.
    pub open spec fn is_valid(self) -> bool {
        0 < self.w <= MAX_COORD && 0 < self.h <= MAX_COORD && -MAX_COORD <= self.x <= MAX_COORD
            && -MAX_COORD <= self.y <= MAX_COORD
    }

    /// Builds a rectangle, rejecting degenerate (non-positive) or
    /// out-of-range extents.
    pub fn new(x: i64, y: i64, w: i64, h: i64) -> (r: Option<Rect>)
        ensures
            r is Some <==> (Rect { x, y, w, h }).is_valid(),
            r matches Some(q) ==> q == (Rect { x, y, w, h }),
    {
        if 0 < w && w <= MAX_COORD && 0 < h && h <= MAX_COORD && -MAX_COORD <= x && x <= MAX_COORD
            && -MAX_COORD <= y && y <= MAX_COORD {
            Some(Rect { x, y, w, h })
        } else {
            None
        }
    }
}

/// The policy that maps the document's intrinsic size to the output size.
#[derive(Clone, Copy, Debug, PartialEq, Eq, Structural)]
pub enum FitTo {
    /// Keep the intrinsic size.
    Original,
    /// Scale to the given width, keeping the aspect ratio.
    Width(u32),
    /// Scale to the given height, keeping the aspect ratio.
    Height(u32),
    /// Scale both dimensions by the given factor, in percent.
    Zoom(u32),
}

/// `ceil(a * b / d)` over `int`, the scaling rule used by the fit policy.
pub open spec fn spec_scale(a: int, b: int, d: int) -> int {
    (a * b + d - 1) / d
}

/// Scales `a` by `b / d`, rounding up; returns nothing when the result
/// does not fit a surface dimension. Requires a positive divisor.
fn scale_dim(a: u32, b: u32, d: u32) -> (r: Option<u32>)
    requires
        0 < d <= MAX_DIM,
        a <= MAX_DIM,
    ensures
        r matches Some(v) ==> v == spec_scale(a as int, b as int, d as int) && 0 < v <= MAX_DIM,
        r is None <==> !(0 < spec_scale(a as int, b as int, d as int) <= MAX_DIM),
{
    proof {
        assert(a as int * b as int <= MAX_DIM as int * u32::MAX as int) by (nonlinear_arith)
            requires
                a <= MAX_DIM,
                b <= u32::MAX,
        ;
    }
    let v: u64 = (a as u64 * b as u64 + d as u64 - 1) / d as u64;
    if 0 < v && v <= MAX_DIM as u64 {
        Some(v as u32)
    } else {
        None
    }
}

impl FitTo {
    /// The effective output size for an intrinsic size, as an `int` pair;
    /// a zero or oversized result means the policy fails on this input.
    pub open spec fn spec_fit(self, width: int, height: int) -> (int, int) {
        match self {
            FitTo::Original => (width, height),
            FitTo::Width(w) => (w as int, spec_scale(height, w as int, width)),
            FitTo::Height(h) => (spec_scale(width, h as int, height), h as int),
            FitTo::Zoom(z) => (
                spec_scale(width, z as int, 100),
                spec_scale(height, z as int, 100),
            ),
        }
    }

    /// Whether the policy yields a usable size for this intrinsic size.
    pub open spec fn spec_fit_ok(self, width: int, height: int) -> bool {
        0 < width <= MAX_DIM as int && 0 < height <= MAX_DIM as int
            && 0 < self.spec_fit(width, height).0 <= MAX_DIM as int && 0 < self.spec_fit(
            width,
            height,
        ).1 <= MAX_DIM as int
    }

    /// Applies the policy to an intrinsic size. Fails exactly when the
    /// intrinsic size is empty or oversized, or the scaled size is.
    pub fn fit_to(self, width: u32, height: u32) -> (r: Option<ScreenSize>)
        ensures
            r is Some <==> self.spec_fit_ok(width as int, height as int),
            r matches Some(s) ==> s.is_valid() && s.width as int == self.spec_fit(
                width as int,
                height as int,
            ).0 && s.height as int == self.spec_fit(width as int, height as int).1,
    {
        if width == 0 || width > MAX_DIM || height == 0 || height > MAX_DIM {
            return None;
        }
        match self {
            FitTo::Original => ScreenSize::new(width, height),
            FitTo::Width(w) => {
                match scale_dim(height, w, width) {
                    Some(h2) => ScreenSize::new(w, h2),
                    None => None,
                }
            },
            FitTo::Height(h) => {
                match scale_dim(width, h, height) {
                    Some(w2) => ScreenSize::new(w2, h),
                    None => None,
                }
            },
            FitTo::Zoom(z) => {
                match scale_dim(width, z, 100) {
                    Some(w2) => match scale_dim(height, z, 100) {
                        Some(h2) => ScreenSize::new(w2, h2),
                        None => None,
                    },
                    None => None,
                }
            },
        }
    }
}

/// Bounding boxes are reported clamped to this window around the origin,
/// so that a box stays a valid `Rect`.
pub const BBOX_LIMIT: i64 = 500_000;

/// Saturating addition on the `i64` range: offsets accumulated through
/// arbitrarily deep transforms stay representable.
pub open spec fn spec_sat_add(a: int, b: int) -> int {
    if a + b > i64::MAX {
        i64::MAX as int
    } else if a + b < i64::MIN {
        i64::MIN as int
    } else {
        a + b
    }
}

/// Adds two coordinates, saturating at the `i64` range.
pub fn sat_add(a: i64, b: i64) -> (r: i64)
    ensures
        r as int == spec_sat_add(a as int, b as int),
{
    let s: i128 = a as i128 + b as i128;
    if s > i64::MAX as i128 {
        i64::MAX
    } else if s < i64::MIN as i128 {
        i64::MIN
    } else {
        s as i64
    }
}

/// Clamps a coordinate into `[-BBOX_LIMIT, BBOX_LIMIT]`.
pub open spec fn spec_clamp_bbox(v: int) -> int {
    if v < -BBOX_LIMIT {
        -BBOX_LIMIT as int
    } else if v > BBOX_LIMIT {
        BBOX_LIMIT as int
    } else {
        v
    }
}

/// Clamps a coordinate into the bounding-box window.
pub fn clamp_bbox(v: i64) -> (r: i64)
    ensures
        r as int == spec_clamp_bbox(v as int),
{
    if v < -BBOX_LIMIT {
        -BBOX_LIMIT
    } else if v > BBOX_LIMIT {
        BBOX_LIMIT
    } else {
        v
    }
}

/// The region of user space mapped onto the output surface; drawing is
/// translated so that the region's origin lands on pixel `(0, 0)`.
#[derive(Clone, Copy, Debug, PartialEq, Eq, Structural)]
pub struct ViewBox {
    pub rect: Rect,
}

} // verus!
