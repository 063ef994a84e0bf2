use crate::event::{TouchInput, TouchPhase};
use crate::state::{ActiveTouch, OrphanMoveEvent};
use vstd::prelude::*;

verus! {

/// What a [`crate::state::TouchInputState`] holds, as mathematical values.
#[verifier::ext_equal]
pub struct TouchStateView {
    pub active_touches: Map<u64, ActiveTouch>,
    pub just_pressed: Set<u64>,
    pub just_released: Set<u64>,
    pub just_cancelled: Set<u64>,
}

/// How one frame's events were taken in: the state they left, and the finger
/// of the `Moved` event that stopped the frame, if one did.
#[verifier::ext_equal]
pub struct Frame {
    pub state: TouchStateView,
    pub orphan: Option<u64>,
}

impl Frame {
    /// What the update that took the frame in reports: the orphan, if there
    /// was one.
    pub open spec fn verdict(self) -> Result<(), OrphanMoveEvent> {
        match self.orphan {
            Some(id) => Err(OrphanMoveEvent { id }),
            None => Ok(()),
        }
    }
}

impl TouchStateView {
    /// No finger down and nothing reported for the frame.
    pub open spec fn empty() -> TouchStateView {
        TouchStateView {
            active_touches: Map::empty(),
            just_pressed: Set::empty(),
            just_released: Set::empty(),
            just_cancelled: Set::empty(),
        }
    }

    /// Every tracked touch is filed under its own finger id.
    pub open spec fn wf(self) -> bool {
        forall|id: u64| #[trigger]
            self.active_touches.contains_key(id) ==> self.active_touches[id].id == id
    }

    /// The state at the start of a frame: the same fingers are down, and the
    /// three per-frame sets are empty.
    pub open spec fn begin_frame(self) -> TouchStateView {
        TouchStateView {
            active_touches: self.active_touches,
            just_pressed: Set::empty(),
            just_released: Set::empty(),
            just_cancelled: Set::empty(),
        }
    }

    /// A `Moved` event for a finger that is not down cannot be applied.
    pub open spec fn orphans(self, event: TouchInput) -> bool {
        event.phase == TouchPhase::Moved && !self.active_touches.contains_key(event.id)
    }

    /// The state after one event that can be applied.
    ///
    /// `Started` files a touch that rests at the event's coordinates, replacing
    /// any touch already filed for that finger; it leaves `just_pressed` alone.
    /// `Moved` replaces the current coordinates and keeps the start.
    /// `Ended` and `Cancelled` drop the touch, if there is one, and record the
    /// finger in `just_released` or `just_cancelled`.
    pub open spec fn step(self, event: TouchInput) -> TouchStateView
        recommends
            !self.orphans(event),
    {
        match event.phase {
            TouchPhase::Started => TouchStateView {
                active_touches: self.active_touches.insert(
                    event.id,
                    ActiveTouch {
                        id: event.id,
                        start_x: event.x,
                        start_y: event.y,
                        cur_x: event.x,
                        cur_y: event.y,
                    },
                ),
                ..self
            },
            TouchPhase::Moved => if self.active_touches.contains_key(event.id) {
                TouchStateView {
                    active_touches: self.active_touches.insert(
                        event.id,
                        ActiveTouch {
                            cur_x: event.x,
                            cur_y: event.y,
                            ..self.active_touches[event.id]
                        },
                    ),
                    ..self
                }
            } else {
                self
            },
            TouchPhase::Ended => TouchStateView {
                active_touches: self.active_touches.remove(event.id),
                just_released: self.just_released.insert(event.id),
                ..self
            },
            TouchPhase::Cancelled => TouchStateView {
                active_touches: self.active_touches.remove(event.id),
                just_cancelled: self.just_cancelled.insert(event.id),
                ..self
            },
        }
    }

    /// The events applied in order, stopping in front of the first `Moved`
    /// event whose finger is not down at that point.
    pub open spec fn run(self, events: Seq<TouchInput>) -> Frame
        decreases events.len(),
    {
        if events.len() == 0 {
            Frame { state: self, orphan: None }
        } else if self.orphans(events[0]) {
            Frame { state: self, orphan: Some(events[0].id) }
        } else {
            self.step(events[0]).run(events.skip(1))
        }
    }

    /// How many of the events `run` applies before it stops.
    pub open spec fn accepted(self, events: Seq<TouchInput>) -> nat
        decreases events.len(),
    {
        if events.len() == 0 || self.orphans(events[0]) {
            0
        } else {
            1 + self.step(events[0]).accepted(events.skip(1))
        }
    }
}

} // verus!
