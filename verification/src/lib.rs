//! Touch tracking for a frame-driven application.
//!
//! Once per frame the raw touch events that arrived since the previous frame
//! are folded into a [`TouchInputState`]: the fingers that are down, where each
//! one first touched and where it is now, and the fingers that were lifted or
//! cancelled during that frame.
//!
//! A `Moved` event for a finger that is not down is a fault of whoever
//! delivered the events. The update stops in front of it and returns an
//! [`OrphanMoveEvent`] that names the finger; it never files a touch for it.
//!
//! Coordinates travel through this crate as the bit patterns of 64-bit IEEE 754
//! numbers. The crate stores and copies them and never does arithmetic on them.

pub mod event;
pub mod laws;
pub mod model;
pub mod source;
pub mod state;
pub mod system;

pub use event::{TouchInput, TouchPhase};
pub use model::{Frame, TouchStateView};
pub use source::{buffered_events, unread_events};
pub use state::{ActiveTouch, OrphanMoveEvent, TouchInputState};
pub use system::{touch_input_system, TouchSystemState};
