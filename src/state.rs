use vstd::prelude::*;

verus! {

/// Phase of the capture controller.
#[derive(Debug, Clone, Copy, PartialEq, Eq, Structural)]
pub enum State {
    /// The envelope crossed the threshold; the rising edge is being captured.
    FadeIn,
    /// Capturing at full level while the envelope stays above the threshold.
    Record,
    /// The envelope fell below the threshold; the falling edge is being captured.
    FadeOut,
    /// Nothing is being captured.
    Idle,
}

} // verus!
