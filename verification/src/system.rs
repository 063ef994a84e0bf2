use crate::event::TouchInput;
use crate::source::{buffered_events, fresh_reader, read_unseen, unread_events};
use crate::state::{OrphanMoveEvent, TouchInputState};
use bevy_app::{EventReader, Events};
use vstd::prelude::*;

verus! {

/// What the touch system keeps from frame to frame: its place in the queue of
/// touch events.
pub struct TouchSystemState {
    touch_event_reader: EventReader<TouchInput>,
}

impl TouchSystemState {
    /// The reader that marks the system's place in the queue.
    pub closed spec fn reader(self) -> EventReader<TouchInput> {
        self.touch_event_reader
    }
}

impl Default for TouchSystemState {
    /// A system that has taken in no event yet: whatever a queue holds is
    /// still in front of it.
    fn default() -> (state: Self)
        ensures
            forall|events: Events<TouchInput>| #[trigger]
                unread_events(state.reader(), events) == buffered_events(events),
    {
        TouchSystemState { touch_event_reader: fresh_reader() }
    }
}

/// Updates the touch state with the touch events that the system has not seen
/// yet.
///
/// The unseen events are taken from the queue, which moves the system's place
/// to the end of the queue, and are then handed to
/// [`TouchInputState::update`] as one frame.
pub fn touch_input_system(
    state: &mut TouchSystemState,
    touch_state: &mut TouchInputState,
    touch_input_events: &Events<TouchInput>,
) -> (result: Result<(), OrphanMoveEvent>)
    ensures
        final(touch_state)@ == old(touch_state)@.begin_frame().run(
            unread_events(old(state).reader(), *touch_input_events),
        ).state,
        result == old(touch_state)@.begin_frame().run(
            unread_events(old(state).reader(), *touch_input_events),
        ).verdict(),
        unread_events(final(state).reader(), *touch_input_events).len() == 0,
        unread_events(old(state).reader(), *touch_input_events).len() == 0 ==> result is Ok
            && final(touch_state)@ == old(touch_state)@.begin_frame(),
        result matches Err(orphan) ==> !final(touch_state)@.active_touches.contains_key(orphan.id),
        final(touch_state)@.just_pressed == Set::<u64>::empty(),
        old(touch_state)@.wf() ==> final(touch_state)@.wf(),
{
    let unseen = read_unseen(&mut state.touch_event_reader, touch_input_events);
    touch_state.update(unseen.as_slice())
}

} // verus!
