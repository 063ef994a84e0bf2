use crate::event::{TouchInput, TouchPhase};
use crate::laws::lemma_frame_outcome;
use crate::model::TouchStateView;
use std::collections::{HashMap, HashSet};
use vstd::prelude::*;
use vstd::std_specs::hash::*;

verus! {

/// A finger that is down: where it first touched and where it is now.
///
/// The four coordinates are bit patterns of 64-bit IEEE 754 numbers, copied
/// from the events that reported them.
#[derive(Debug, Clone, Copy)]
pub struct ActiveTouch {
    pub id: u64,
    pub start_x: u64,
    pub start_y: u64,
    pub cur_x: u64,
    pub cur_y: u64,
}

/// A `Moved` event named a finger that was not down.
#[derive(Debug, Clone, Copy, PartialEq, Eq, Structural)]
pub struct OrphanMoveEvent {
    /// The finger that the event named.
    pub id: u64,
}

/// The touch state that the rest of the application reads between frames.
///
/// `just_pressed`, `just_released` and `just_cancelled` speak of the most
/// recent update only. No event fills `just_pressed`: a `Started` event files
/// the touch under `active_touches` and leaves the set as it is.
pub struct TouchInputState {
    pub active_touches: HashMap<u64, ActiveTouch>,
    pub just_pressed: HashSet<u64>,
    pub just_released: HashSet<u64>,
    pub just_cancelled: HashSet<u64>,
}

impl View for TouchInputState {
    type V = TouchStateView;

    open spec fn view(&self) -> TouchStateView {
        TouchStateView {
            active_touches: self.active_touches@,
            just_pressed: self.just_pressed@,
            just_released: self.just_released@,
            just_cancelled: self.just_cancelled@,
        }
    }
}

impl Default for TouchInputState {
    /// A state with no finger down and nothing reported.
    fn default() -> (state: Self)
        ensures
            state@ == TouchStateView::empty(),
    {
        TouchInputState {
            active_touches: HashMap::new(),
            just_pressed: HashSet::new(),
            just_released: HashSet::new(),
            just_cancelled: HashSet::new(),
        }
    }
}

impl TouchInputState {
    /// Takes in one event.
    ///
    /// A `Moved` event for a finger that is not down is refused and changes
    /// nothing. Every other event is applied as [`TouchStateView::step`] says.
    pub fn apply(&mut self, event: &TouchInput) -> (result: Result<(), OrphanMoveEvent>)
        ensures
            old(self)@.orphans(*event) ==> final(self)@ == old(self)@ && result == Err::<(), _>(
                OrphanMoveEvent { id: event.id },
            ),
            !old(self)@.orphans(*event) ==> final(self)@ == old(self)@.step(*event) && result is Ok,
    {
        broadcast use group_hash_axioms;

        match event.phase {
            TouchPhase::Started => {
                self.active_touches.insert(
                    event.id,
                    ActiveTouch {
                        id: event.id,
                        start_x: event.x,
                        start_y: event.y,
                        cur_x: event.x,
                        cur_y: event.y,
                    },
                );
            },
            TouchPhase::Moved => {
                let moved = match self.active_touches.get(&event.id) {
                    Some(prev) => ActiveTouch {
                        id: prev.id,
                        start_x: prev.start_x,
                        start_y: prev.start_y,
                        cur_x: event.x,
                        cur_y: event.y,
                    },
                    None => {
                        return Err(OrphanMoveEvent { id: event.id });
                    },
                };
                self.active_touches.insert(event.id, moved);
            },
            TouchPhase::Ended => {
                self.active_touches.remove(&event.id);
                self.just_released.insert(event.id);
            },
            TouchPhase::Cancelled => {
                self.active_touches.remove(&event.id);
                self.just_cancelled.insert(event.id);
            },
        }
        Ok(())
    }

    /// Takes in one frame's events, in the order in which they arrived.
    ///
    /// The three per-frame sets are emptied first, whatever else happens. Then
    /// the events are applied one by one. A `Moved` event for a finger that is
    /// not down at that point ends the update: the events in front of it stay
    /// applied, the rest of the frame is dropped, and the error names the
    /// finger.
    pub fn update(&mut self, events: &[TouchInput]) -> (result: Result<(), OrphanMoveEvent>)
        ensures
            final(self)@ == old(self)@.begin_frame().run(events@).state,
            result == old(self)@.begin_frame().run(events@).verdict(),
            events@.len() == 0 ==> result is Ok && final(self)@ == old(self)@.begin_frame(),
            result matches Err(orphan) ==> !final(self)@.active_touches.contains_key(orphan.id),
            final(self)@.just_pressed == Set::<u64>::empty(),
            old(self)@.wf() ==> final(self)@.wf(),
    {
        self.just_pressed.clear();
        self.just_released.clear();
        self.just_cancelled.clear();

        let ghost frame = old(self)@.begin_frame().run(events@);
        assert(self@ =~= old(self)@.begin_frame());
        assert(events@.skip(0) =~= events@);
        let mut i: usize = 0;
        while i < events.len()
            invariant
                i <= events.len(),
                frame == old(self)@.begin_frame().run(events@),
                self@.run(events@.skip(i as int)) == frame,
            decreases events.len() - i,
        {
            let ghost rest = events@.skip(i as int);
            assert(rest[0] == events@[i as int]);
            assert(rest.skip(1) =~= events@.skip(i + 1));
            match self.apply(&events[i]) {
                Ok(()) => {},
                Err(orphan) => {
                    proof {
                        lemma_frame_outcome(old(self)@, events@);
                    }
                    return Err(orphan);
                },
            }
            i += 1;
        }
        proof {
            lemma_frame_outcome(old(self)@, events@);
        }
        Ok(())
    }
}

} // verus!
