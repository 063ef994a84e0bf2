//! What holds of every state and every sequence of events, proved over
//! [`TouchStateView::step`] and [`TouchStateView::run`].

use crate::event::{TouchInput, TouchPhase};
use crate::model::{Frame, TouchStateView};
use crate::state::ActiveTouch;
use vstd::prelude::*;

verus! {

/// Whether one of the events reports `phase` for `finger`.
pub open spec fn reports(events: Seq<TouchInput>, finger: u64, phase: TouchPhase) -> bool {
    exists|i: int|
        0 <= i < events.len() && (#[trigger] events[i]).id == finger && events[i].phase == phase
}

/// Whether the touch is where it began: its current coordinates are, bit for
/// bit, its start.
pub open spec fn at_rest(touch: ActiveTouch) -> bool {
    touch.cur_x == touch.start_x && touch.cur_y == touch.start_y
}

/// A run applies a prefix of its events and stops either at the end or in
/// front of an orphan: a `Moved` event whose finger is not down in the state
/// that the run leaves.
pub proof fn lemma_run_stops_at_orphan(s: TouchStateView, events: Seq<TouchInput>)
    ensures
        s.accepted(events) <= events.len(),
        s.run(events).orphan is None <==> s.accepted(events) == events.len(),
        s.run(events.take(s.accepted(events) as int)) == (Frame {
            state: s.run(events).state,
            orphan: None,
        }),
        s.run(events).orphan matches Some(finger) ==> {
            &&& events[s.accepted(events) as int].phase == TouchPhase::Moved
            &&& events[s.accepted(events) as int].id == finger
            &&& !s.run(events).state.active_touches.contains_key(finger)
        },
    decreases events.len(),
{
    if events.len() == 0 || s.orphans(events[0]) {
        assert(events.take(0).len() == 0);
    } else {
        let next = s.step(events[0]);
        let rest = events.skip(1);
        lemma_run_stops_at_orphan(next, rest);
        let n = next.accepted(rest) as int;
        assert(events.take(n + 1)[0] == events[0]);
        assert(events.take(n + 1).skip(1) =~= rest.take(n));
        if n < rest.len() {
            assert(rest[n] == events[n + 1]);
        }
    }
}

/// A run over two sequences joined is the run over the first followed, from
/// the state it leaves, by the run over the second; unless the first stops at
/// an orphan, which then stops the whole.
pub proof fn lemma_run_in_two_parts(
    s: TouchStateView,
    first: Seq<TouchInput>,
    second: Seq<TouchInput>,
)
    ensures
        s.run(first).orphan is None ==> s.run(first + second) == s.run(first).state.run(second),
        s.run(first).orphan is Some ==> s.run(first + second) == s.run(first),
    decreases first.len(),
{
    if first.len() == 0 {
        assert(first + second =~= second);
    } else {
        assert((first + second)[0] == first[0]);
        assert((first + second).skip(1) =~= first.skip(1) + second);
        if !s.orphans(first[0]) {
            lemma_run_in_two_parts(s.step(first[0]), first.skip(1), second);
        }
    }
}

/// The fingers that are down, and the orphan that stops a run, do not depend
/// on the three per-frame sets: emptying them first changes neither.
pub proof fn lemma_frame_start_keeps_touches(s: TouchStateView, events: Seq<TouchInput>)
    ensures
        s.begin_frame().run(events).state.active_touches == s.run(events).state.active_touches,
        s.begin_frame().run(events).orphan == s.run(events).orphan,
        s.begin_frame().accepted(events) == s.accepted(events),
{
    lemma_run_ignores_sets(s.begin_frame(), s, events);
}

proof fn lemma_run_ignores_sets(a: TouchStateView, b: TouchStateView, events: Seq<TouchInput>)
    requires
        a.active_touches == b.active_touches,
    ensures
        a.run(events).state.active_touches == b.run(events).state.active_touches,
        a.run(events).orphan == b.run(events).orphan,
        a.accepted(events) == b.accepted(events),
    decreases events.len(),
{
    if events.len() > 0 && !a.orphans(events[0]) {
        lemma_run_ignores_sets(a.step(events[0]), b.step(events[0]), events.skip(1));
    }
}

/// Where a frame is cut does not matter to the fingers that are down: two
/// updates in a row, the first of which applied all its events, leave the
/// touches, and find the orphan, that one update with all the events would.
pub proof fn lemma_touches_do_not_depend_on_the_cut(
    s: TouchStateView,
    first: Seq<TouchInput>,
    second: Seq<TouchInput>,
)
    requires
        s.begin_frame().run(first).orphan is None,
    ensures
        ({
            let halfway = s.begin_frame().run(first).state;
            let cut = halfway.begin_frame().run(second);
            let whole = s.begin_frame().run(first + second);
            &&& cut.state.active_touches == whole.state.active_touches
            &&& cut.orphan == whole.orphan
        }),
{
    lemma_run_in_two_parts(s.begin_frame(), first, second);
    lemma_frame_start_keeps_touches(s.begin_frame().run(first).state, second);
}

/// A state in which every touch is filed under its own finger id stays so.
pub proof fn lemma_run_keeps_wf(s: TouchStateView, events: Seq<TouchInput>)
    requires
        s.wf(),
    ensures
        s.run(events).state.wf(),
    decreases events.len(),
{
    if events.len() > 0 && !s.orphans(events[0]) {
        lemma_run_keeps_wf(s.step(events[0]), events.skip(1));
    }
}

/// A finger that none of the events names keeps its touch, or stays up, as it
/// was.
pub proof fn lemma_unnamed_finger_is_untouched(
    s: TouchStateView,
    events: Seq<TouchInput>,
    finger: u64,
)
    requires
        forall|i: int| 0 <= i < events.len() ==> (#[trigger] events[i]).id != finger,
    ensures
        ({
            let end = s.run(events).state.active_touches;
            &&& end.contains_key(finger) == s.active_touches.contains_key(finger)
            &&& end.contains_key(finger) ==> end[finger] == s.active_touches[finger]
        }),
    decreases events.len(),
{
    if events.len() > 0 && !s.orphans(events[0]) {
        let rest = events.skip(1);
        assert(events[0].id != finger);
        assert forall|i: int| 0 <= i < rest.len() implies (#[trigger] rest[i]).id != finger by {
            assert(rest[i] == events[i + 1]);
        }
        lemma_unnamed_finger_is_untouched(s.step(events[0]), rest, finger);
    }
}

/// While the events that name a finger are all `Moved`, the finger stays down
/// and its touch keeps its id and its start.
pub proof fn lemma_moves_keep_start(s: TouchStateView, events: Seq<TouchInput>, finger: u64)
    requires
        s.active_touches.contains_key(finger),
        forall|i: int|
            0 <= i < events.len() && (#[trigger] events[i]).id == finger ==> events[i].phase
                == TouchPhase::Moved,
    ensures
        ({
            let end = s.run(events).state.active_touches;
            &&& end.contains_key(finger)
            &&& end[finger].id == s.active_touches[finger].id
            &&& end[finger].start_x == s.active_touches[finger].start_x
            &&& end[finger].start_y == s.active_touches[finger].start_y
        }),
    decreases events.len(),
{
    if events.len() > 0 && !s.orphans(events[0]) {
        let rest = events.skip(1);
        assert(events[0].id == finger ==> events[0].phase == TouchPhase::Moved);
        assert forall|i: int|
            0 <= i < rest.len() && (#[trigger] rest[i]).id == finger implies rest[i].phase
            == TouchPhase::Moved by {
            assert(rest[i] == events[i + 1]);
        }
        lemma_moves_keep_start(s.step(events[0]), rest, finger);
    }
}

/// The start of a touch is where its `Started` event put it, whatever `Moved`
/// events follow.
///
/// The events begin with a `Started` event, and those after it that name the
/// same finger are all `Moved`. Then the finger is down at the end, filed
/// under its id, and its start is the coordinates of the `Started` event.
pub proof fn lemma_start_is_where_the_touch_began(s: TouchStateView, events: Seq<TouchInput>)
    requires
        events.len() > 0,
        events[0].phase == TouchPhase::Started,
        forall|i: int|
            1 <= i < events.len() && (#[trigger] events[i]).id == events[0].id ==> events[i].phase
                == TouchPhase::Moved,
    ensures
        ({
            let end = s.run(events).state.active_touches;
            &&& end.contains_key(events[0].id)
            &&& end[events[0].id].id == events[0].id
            &&& end[events[0].id].start_x == events[0].x
            &&& end[events[0].id].start_y == events[0].y
        }),
{
    let rest = events.skip(1);
    assert forall|i: int|
        0 <= i < rest.len() && (#[trigger] rest[i]).id == events[0].id implies rest[i].phase
        == TouchPhase::Moved by {
        assert(rest[i] == events[i + 1]);
    }
    lemma_moves_keep_start(s.step(events[0]), rest, events[0].id);
}

/// A touch that no `Moved` event has reached rests at its start.
///
/// At the outset the finger is up, or its touch is at its start. None of the
/// events is a `Moved` event for the finger; it may be put down, lifted and
/// put down again. Then, if the finger is down at the end, the current
/// coordinates of its touch are, bit for bit, its start.
pub proof fn lemma_unmoved_touch_rests_at_start(
    s: TouchStateView,
    events: Seq<TouchInput>,
    finger: u64,
)
    requires
        s.active_touches.contains_key(finger) ==> at_rest(s.active_touches[finger]),
        forall|i: int|
            0 <= i < events.len() && (#[trigger] events[i]).id == finger ==> events[i].phase
                != TouchPhase::Moved,
    ensures
        s.run(events).state.active_touches.contains_key(finger) ==> at_rest(
            s.run(events).state.active_touches[finger],
        ),
    decreases events.len(),
{
    if events.len() > 0 && !s.orphans(events[0]) {
        let rest = events.skip(1);
        assert(events[0].id == finger ==> events[0].phase != TouchPhase::Moved);
        assert forall|i: int|
            0 <= i < rest.len() && (#[trigger] rest[i]).id == finger implies rest[i].phase
            != TouchPhase::Moved by {
            assert(rest[i] == events[i + 1]);
        }
        lemma_unmoved_touch_rests_at_start(s.step(events[0]), rest, finger);
    }
}

/// An update that is handed no event leaves the fingers that are down as they
/// were and reports nothing, whatever the sets held before.
pub proof fn lemma_empty_frame_reports_nothing(s: TouchStateView)
    ensures
        s.begin_frame().run(Seq::<TouchInput>::empty()) == (Frame {
            state: s.begin_frame(),
            orphan: None,
        }),
        s.begin_frame().active_touches == s.active_touches,
        s.begin_frame().just_pressed == Set::<u64>::empty(),
        s.begin_frame().just_released == Set::<u64>::empty(),
        s.begin_frame().just_cancelled == Set::<u64>::empty(),
{
}

/// A `Moved` event for a finger that is not down is refused: the run stops in
/// front of it, names the finger and files nothing for it.
pub proof fn lemma_orphan_move_is_refused(
    s: TouchStateView,
    event: TouchInput,
    rest: Seq<TouchInput>,
)
    requires
        event.phase == TouchPhase::Moved,
        !s.active_touches.contains_key(event.id),
    ensures
        s.run(seq![event] + rest) == (Frame { state: s, orphan: Some(event.id) }),
        !s.run(seq![event] + rest).state.active_touches.contains_key(event.id),
{
    assert((seq![event] + rest)[0] == event);
}

/// Of two `Started` events in a row for one finger the second wins: the state
/// is the one that the second alone would have left, and the touch rests at
/// the second's coordinates.
pub proof fn lemma_second_start_overwrites(
    s: TouchStateView,
    first: TouchInput,
    second: TouchInput,
    rest: Seq<TouchInput>,
)
    requires
        first.phase == TouchPhase::Started,
        second.phase == TouchPhase::Started,
        first.id == second.id,
    ensures
        s.step(first).step(second) == s.step(second),
        s.step(second).active_touches[second.id] == (ActiveTouch {
            id: second.id,
            start_x: second.x,
            start_y: second.y,
            cur_x: second.x,
            cur_y: second.y,
        }),
        s.run(seq![first, second] + rest) == s.run(seq![second] + rest),
{
    assert(s.step(first).step(second) =~= s.step(second));
    let both = seq![first, second] + rest;
    let one = seq![second] + rest;
    assert(both[0] == first);
    assert(both.skip(1)[0] == second);
    assert(both.skip(1).skip(1) =~= rest);
    assert(s.run(both) == s.step(first).run(both.skip(1)));
    assert(s.step(first).run(both.skip(1)) == s.step(first).step(second).run(rest));
    assert(one[0] == second);
    assert(one.skip(1) =~= rest);
    assert(s.run(one) == s.step(second).run(rest));
}

/// Right after an `Ended` or `Cancelled` event its finger is not down, the
/// finger is in the set that the event fills, and the other set is as it was.
pub proof fn lemma_lift_takes_finger_up(s: TouchStateView, event: TouchInput)
    requires
        event.phase == TouchPhase::Ended || event.phase == TouchPhase::Cancelled,
    ensures
        !s.step(event).active_touches.contains_key(event.id),
        s.step(event).just_pressed == s.just_pressed,
        event.phase == TouchPhase::Ended ==> s.step(event).just_released.contains(event.id)
            && s.step(event).just_cancelled == s.just_cancelled,
        event.phase == TouchPhase::Cancelled ==> s.step(event).just_cancelled.contains(event.id)
            && s.step(event).just_released == s.just_released,
{
}

/// What the three sets hold after a run that applied all its events:
/// `just_pressed` is as it was, `just_released` has gained the fingers of the
/// `Ended` events and `just_cancelled` those of the `Cancelled` events.
pub proof fn lemma_sets_after_run(s: TouchStateView, events: Seq<TouchInput>, finger: u64)
    requires
        s.run(events).orphan is None,
    ensures
        s.run(events).state.just_pressed == s.just_pressed,
        s.run(events).state.just_released.contains(finger) <==> s.just_released.contains(finger)
            || reports(events, finger, TouchPhase::Ended),
        s.run(events).state.just_cancelled.contains(finger) <==> s.just_cancelled.contains(finger)
            || reports(events, finger, TouchPhase::Cancelled),
    decreases events.len(),
{
    if events.len() > 0 {
        let rest = events.skip(1);
        lemma_sets_after_run(s.step(events[0]), rest, finger);
        lemma_reports_by_parts(events, finger, TouchPhase::Ended);
        lemma_reports_by_parts(events, finger, TouchPhase::Cancelled);
    }
}

proof fn lemma_reports_by_parts(events: Seq<TouchInput>, finger: u64, phase: TouchPhase)
    requires
        events.len() > 0,
    ensures
        reports(events, finger, phase) <==> (events[0].id == finger && events[0].phase == phase)
            || reports(events.skip(1), finger, phase),
{
    let rest = events.skip(1);
    if reports(events, finger, phase) {
        let i = choose|i: int|
            0 <= i < events.len() && (#[trigger] events[i]).id == finger && events[i].phase
                == phase;
        if i > 0 {
            assert(rest[i - 1] == events[i]);
        }
    }
    if reports(rest, finger, phase) {
        let j = choose|j: int|
            0 <= j < rest.len() && (#[trigger] rest[j]).id == finger && rest[j].phase == phase;
        assert(events[j + 1] == rest[j]);
    }
}

/// What holds at the end of every frame, whether it stopped at an orphan or
/// not: `just_pressed` is empty, since no event fills it; the finger of the
/// orphan, if there was one, is not down; and touches that were filed under
/// their own finger ids still are.
pub proof fn lemma_frame_outcome(s: TouchStateView, events: Seq<TouchInput>)
    ensures
        ({
            let frame = s.begin_frame().run(events);
            &&& frame.state.just_pressed == Set::<u64>::empty()
            &&& frame.orphan matches Some(finger) ==> !frame.state.active_touches.contains_key(
                finger,
            )
            &&& s.wf() ==> frame.state.wf()
        }),
{
    let start = s.begin_frame();
    lemma_run_stops_at_orphan(start, events);
    lemma_sets_after_run(start, events.take(start.accepted(events) as int), 0);
    if s.wf() {
        lemma_run_keeps_wf(start, events);
    }
}

/// A finger stays up while no `Started` event names it.
pub proof fn lemma_finger_stays_up(s: TouchStateView, events: Seq<TouchInput>, finger: u64)
    requires
        !s.active_touches.contains_key(finger),
        forall|i: int|
            0 <= i < events.len() && (#[trigger] events[i]).id == finger ==> events[i].phase
                != TouchPhase::Started,
    ensures
        !s.run(events).state.active_touches.contains_key(finger),
    decreases events.len(),
{
    if events.len() > 0 && !s.orphans(events[0]) {
        let rest = events.skip(1);
        assert(events[0].id == finger ==> events[0].phase != TouchPhase::Started);
        assert forall|i: int|
            0 <= i < rest.len() && (#[trigger] rest[i]).id == finger implies rest[i].phase
            != TouchPhase::Started by {
            assert(rest[i] == events[i + 1]);
        }
        lemma_finger_stays_up(s.step(events[0]), rest, finger);
    }
}

/// A finger that a frame lifts is up at the end of the frame and is reported
/// in one of the two sets.
///
/// The frame applied all its events, and event `i` is an `Ended` or a
/// `Cancelled` event. Then its finger is in the set that the event fills. The
/// finger is not down at the end, unless a later `Started` event of the frame
/// put it down again. And it is in one of `just_released` and `just_cancelled`
/// only, unless the frame holds both an `Ended` and a `Cancelled` event for
/// it.
pub proof fn lemma_lifted_finger_is_reported(s: TouchStateView, events: Seq<TouchInput>, i: int)
    requires
        0 <= i < events.len(),
        events[i].phase == TouchPhase::Ended || events[i].phase == TouchPhase::Cancelled,
        s.begin_frame().run(events).orphan is None,
    ensures
        ({
            let end = s.begin_frame().run(events).state;
            let finger = events[i].id;
            &&& events[i].phase == TouchPhase::Ended ==> end.just_released.contains(finger)
            &&& events[i].phase == TouchPhase::Cancelled ==> end.just_cancelled.contains(finger)
            &&& (forall|j: int|
                i < j < events.len() && (#[trigger] events[j]).id == finger ==> events[j].phase
                    != TouchPhase::Started) ==> !end.active_touches.contains_key(finger)
            &&& !(reports(events, finger, TouchPhase::Ended) && reports(
                events,
                finger,
                TouchPhase::Cancelled,
            )) ==> (end.just_released.contains(finger) != end.just_cancelled.contains(finger))
        }),
{
    let finger = events[i].id;
    lemma_sets_after_run(s.begin_frame(), events, finger);
    if forall|j: int|
        i < j < events.len() && (#[trigger] events[j]).id == finger ==> events[j].phase
            != TouchPhase::Started {
        lemma_last_lift_stays(s.begin_frame(), events, i);
    }
}

proof fn lemma_last_lift_stays(s: TouchStateView, events: Seq<TouchInput>, i: int)
    requires
        0 <= i < events.len(),
        events[i].phase == TouchPhase::Ended || events[i].phase == TouchPhase::Cancelled,
        s.run(events).orphan is None,
        forall|j: int|
            i < j < events.len() && (#[trigger] events[j]).id == events[i].id ==> events[j].phase
                != TouchPhase::Started,
    ensures
        !s.run(events).state.active_touches.contains_key(events[i].id),
    decreases events.len(),
{
    let rest = events.skip(1);
    let next = s.step(events[0]);
    if i == 0 {
        assert forall|j: int|
            0 <= j < rest.len() && (#[trigger] rest[j]).id == events[0].id implies rest[j].phase
            != TouchPhase::Started by {
            assert(rest[j] == events[j + 1]);
        }
        lemma_finger_stays_up(next, rest, events[0].id);
    } else {
        assert(rest[i - 1] == events[i]);
        assert forall|j: int|
            i - 1 < j < rest.len() && (#[trigger] rest[j]).id == events[i].id implies rest[j].phase
            != TouchPhase::Started by {
            assert(rest[j] == events[j + 1]);
        }
        lemma_last_lift_stays(next, rest, i - 1);
    }
}

} // verus!
