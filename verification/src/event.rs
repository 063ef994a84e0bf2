use vstd::prelude::*;

verus! {

/// The lifecycle stage that one touch event reports for its finger.
#[derive(Debug, Hash, PartialEq, Eq, Clone, Copy, Structural)]
pub enum TouchPhase {
    Started,
    Moved,
    Ended,
    Cancelled,
}

/// A touch input event.
///
/// `x` and `y` are screen coordinates, each held as the bit pattern of a 64-bit
/// IEEE 754 number (what `to_bits` gives for the coordinate).
#[derive(Debug, Clone, Copy)]
pub struct TouchInput {
    pub phase: TouchPhase,
    pub x: u64,
    pub y: u64,
    /// Unique identifier of a finger. It is stable while the finger stays down
    /// and may be handed out again for a later contact.
    pub id: u64,
}

} // verus!
