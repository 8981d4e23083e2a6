//! The layer manager: allocates transparent offscreen surfaces sized to
//! the current viewport, against a fixed budget. Exhausting the budget is
//! the fatal condition of the pipeline; allocation and release nest
//! exactly with the recursion that uses them.

use vstd::prelude::*;
use crate::geom::ScreenSize;
use crate::surface::{Surface, transparent};

verus! {

/// How many offscreen layers may be live at once.
pub const LAYER_BUDGET: usize = 16;

/// The layer allocator for one render pass.
#[derive(Debug)]
pub struct Layers {
    /// The viewport size; every layer has exactly this size.
    pub size: ScreenSize,
    /// How many more layers may be allocated.
    pub available: usize,
}

impl Layers {
    /// Well-formedness: the viewport size is usable and the budget is
    /// not overdrawn.
    pub open spec fn wf(self) -> bool {
        self.size.is_valid() && self.available <= LAYER_BUDGET
    }

    /// A fresh allocator with the full budget.
    pub fn new(size: ScreenSize) -> (l: Layers)
        requires
            size.is_valid(),
        ensures
            l.wf(),
            l.size == size,
            l.available == LAYER_BUDGET,
    {
        Layers { size, available: LAYER_BUDGET }
    }

    /// Allocates one transparent viewport-sized layer, or reports
    /// exhaustion: returns a layer exactly when the budget is not spent.
    pub fn acquire(&mut self) -> (r: Option<Surface>)
        requires
            old(self).wf(),
        ensures
            final(self).wf(),
            final(self).size == old(self).size,
            r is Some <==> old(self).available > 0,
            r is None ==> *final(self) == *old(self),
            r matches Some(s) ==> {
                &&& final(self).available == old(self).available - 1
                &&& s.wf()
                &&& s.spec_size() == old(self).size
                &&& forall|i: int| 0 <= i < s@.len() ==> s@[i] == transparent()
            },
    {
        if self.available == 0 {
            None
        } else {
            self.available = self.available - 1;
            Some(Surface::new(self.size, None))
        }
    }

    /// Returns one layer to the budget; called when the surface a
    /// recursion scope allocated goes out of use.
    pub fn release(&mut self)
        requires
            old(self).wf(),
            old(self).available < LAYER_BUDGET,
        ensures
            final(self).wf(),
            final(self).size == old(self).size,
            final(self).available == old(self).available + 1,
    {
        self.available = self.available + 1;
    }
}

} // verus!
