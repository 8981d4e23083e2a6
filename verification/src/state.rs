//! The render state: a one-way status token threaded through the
//! recursive traversal, used to abort remaining drawing without
//! stack-unwinding control flow.

use vstd::prelude::*;

verus! {

/// Why a render was aborted.
#[derive(Clone, Copy, Debug, PartialEq, Eq, Structural)]
pub enum FatalReason {
    /// An offscreen layer could not be allocated.
    LayerAllocation,
}

/// The status token. It starts `Ready` and can only move to `Fatal`;
/// once fatal, every remaining drawing step becomes a no-op.
#[derive(Clone, Copy, Debug, PartialEq, Eq, Structural)]
pub enum RenderState {
    /// Rendering proceeds normally.
    Ready,
    /// An unrecoverable condition was met; no further draw calls are made.
    Fatal(FatalReason),
}

impl RenderState {
    /// Whether the state is fatal.
    pub open spec fn spec_is_fatal(self) -> bool {
        self is Fatal
    }

    /// Tests whether the state is fatal.
    pub fn is_fatal(&self) -> (b: bool)
        ensures
            b == self.spec_is_fatal(),
    {
        match self {
            RenderState::Ready => false,
            RenderState::Fatal(_) => true,
        }
    }

    /// Moves the state to `Fatal`. There is no way back: no function of
    /// this crate ever returns a state to `Ready`.
    pub fn set_fatal(&mut self, reason: FatalReason)
        ensures
            *final(self) == RenderState::Fatal(reason),
            final(self).spec_is_fatal(),
    {
        *self = RenderState::Fatal(reason);
    }
}

} // verus!
