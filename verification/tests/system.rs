use bevy_app::Events;
use std::collections::HashSet;
use touch_input::{
    touch_input_system, OrphanMoveEvent, TouchInput, TouchInputState, TouchPhase, TouchSystemState,
};

fn event(phase: TouchPhase, id: u64, x: f64, y: f64) -> TouchInput {
    TouchInput { phase, x: x.to_bits(), y: y.to_bits(), id }
}

fn only(id: u64) -> HashSet<u64> {
    let mut set = HashSet::new();
    set.insert(id);
    set
}

#[test]
fn system_takes_in_what_the_queue_holds() {
    let mut events = Events::<TouchInput>::default();
    events.send(event(TouchPhase::Started, 1, 0.0, 0.0));
    events.send(event(TouchPhase::Moved, 1, 3.0, 4.0));

    let mut system = TouchSystemState::default();
    let mut touches = TouchInputState::default();
    assert_eq!(touch_input_system(&mut system, &mut touches, &events), Ok(()));

    let touch = touches.active_touches.get(&1).expect("finger 1 is down");
    assert_eq!(touch.id, 1);
    assert_eq!(f64::from_bits(touch.start_x), 0.0);
    assert_eq!(f64::from_bits(touch.start_y), 0.0);
    assert_eq!(f64::from_bits(touch.cur_x), 3.0);
    assert_eq!(f64::from_bits(touch.cur_y), 4.0);
}

#[test]
fn system_press_drag_release_over_two_frames() {
    let mut events = Events::<TouchInput>::default();
    let mut system = TouchSystemState::default();
    let mut touches = TouchInputState::default();

    events.send(event(TouchPhase::Started, 1, 0.0, 0.0));
    events.send(event(TouchPhase::Moved, 1, 3.0, 4.0));
    assert_eq!(touch_input_system(&mut system, &mut touches, &events), Ok(()));
    {
        let touch = touches.active_touches.get(&1).expect("finger 1 is down");
        assert_eq!(f64::from_bits(touch.cur_x) - f64::from_bits(touch.start_x), 3.0);
        assert_eq!(f64::from_bits(touch.cur_y) - f64::from_bits(touch.start_y), 4.0);
    }

    events.send(event(TouchPhase::Ended, 1, 3.0, 4.0));
    assert_eq!(touch_input_system(&mut system, &mut touches, &events), Ok(()));
    assert!(touches.active_touches.is_empty());
    assert_eq!(touches.just_released, only(1));
    assert!(touches.just_cancelled.is_empty());
}

#[test]
fn system_sees_each_event_once() {
    let mut events = Events::<TouchInput>::default();
    let mut system = TouchSystemState::default();
    let mut touches = TouchInputState::default();

    events.send(event(TouchPhase::Started, 1, 0.0, 0.0));
    events.send(event(TouchPhase::Ended, 1, 0.0, 0.0));
    assert_eq!(touch_input_system(&mut system, &mut touches, &events), Ok(()));
    assert_eq!(touches.just_released, only(1));

    assert_eq!(touch_input_system(&mut system, &mut touches, &events), Ok(()));
    assert!(touches.just_released.is_empty());
    assert!(touches.active_touches.is_empty());
}

#[test]
fn system_does_not_replay_a_move_after_a_lift() {
    let mut events = Events::<TouchInput>::default();
    let mut system = TouchSystemState::default();
    let mut touches = TouchInputState::default();

    events.send(event(TouchPhase::Started, 1, 0.0, 0.0));
    events.send(event(TouchPhase::Moved, 1, 1.0, 1.0));
    assert_eq!(touch_input_system(&mut system, &mut touches, &events), Ok(()));

    events.send(event(TouchPhase::Cancelled, 1, 1.0, 1.0));
    assert_eq!(touch_input_system(&mut system, &mut touches, &events), Ok(()));
    assert!(touches.active_touches.is_empty());
    assert_eq!(touches.just_cancelled, only(1));
}

#[test]
fn system_reads_older_events_first() {
    let mut events = Events::<TouchInput>::default();
    let mut system = TouchSystemState::default();
    let mut touches = TouchInputState::default();

    events.send(event(TouchPhase::Started, 1, 10.0, 10.0));
    events.update();
    events.send(event(TouchPhase::Moved, 1, 12.0, 15.0));
    assert_eq!(touch_input_system(&mut system, &mut touches, &events), Ok(()));

    let touch = touches.active_touches.get(&1).expect("finger 1 is down");
    assert_eq!(f64::from_bits(touch.start_x), 10.0);
    assert_eq!(f64::from_bits(touch.start_y), 10.0);
    assert_eq!(f64::from_bits(touch.cur_x), 12.0);
    assert_eq!(f64::from_bits(touch.cur_y), 15.0);
}

#[test]
fn system_keeps_its_place_across_queue_updates() {
    let mut events = Events::<TouchInput>::default();
    let mut system = TouchSystemState::default();
    let mut touches = TouchInputState::default();

    events.send(event(TouchPhase::Started, 1, 0.0, 0.0));
    assert_eq!(touch_input_system(&mut system, &mut touches, &events), Ok(()));
    events.update();
    events.send(event(TouchPhase::Started, 2, 5.0, 5.0));
    assert_eq!(touch_input_system(&mut system, &mut touches, &events), Ok(()));
    events.update();
    events.send(event(TouchPhase::Ended, 1, 0.0, 0.0));
    assert_eq!(touch_input_system(&mut system, &mut touches, &events), Ok(()));

    assert!(!touches.active_touches.contains_key(&1));
    assert!(touches.active_touches.contains_key(&2));
    assert_eq!(touches.just_released, only(1));
}

#[test]
fn system_with_an_empty_queue_clears_the_sets() {
    let events = Events::<TouchInput>::default();
    let mut system = TouchSystemState::default();
    let mut touches = TouchInputState::default();
    touches.just_pressed.insert(1);
    touches.just_released.insert(2);
    touches.just_cancelled.insert(3);

    assert_eq!(touch_input_system(&mut system, &mut touches, &events), Ok(()));
    assert!(touches.just_pressed.is_empty());
    assert!(touches.just_released.is_empty());
    assert!(touches.just_cancelled.is_empty());
}

#[test]
fn system_reports_an_orphan_move() {
    let mut events = Events::<TouchInput>::default();
    events.send(event(TouchPhase::Moved, 99, 1.0, 2.0));

    let mut system = TouchSystemState::default();
    let mut touches = TouchInputState::default();
    assert_eq!(
        touch_input_system(&mut system, &mut touches, &events),
        Err(OrphanMoveEvent { id: 99 })
    );
    assert!(!touches.active_touches.contains_key(&99));
}

#[test]
fn system_drops_the_rest_of_a_refused_frame() {
    let mut events = Events::<TouchInput>::default();
    let mut system = TouchSystemState::default();
    let mut touches = TouchInputState::default();

    events.send(event(TouchPhase::Started, 1, 0.0, 0.0));
    events.send(event(TouchPhase::Moved, 99, 1.0, 2.0));
    events.send(event(TouchPhase::Ended, 1, 0.0, 0.0));
    assert_eq!(
        touch_input_system(&mut system, &mut touches, &events),
        Err(OrphanMoveEvent { id: 99 })
    );
    assert!(touches.active_touches.contains_key(&1));
    assert!(touches.just_released.is_empty());

    assert_eq!(touch_input_system(&mut system, &mut touches, &events), Ok(()));
    assert!(touches.active_touches.contains_key(&1));
    assert!(touches.just_released.is_empty());
}

#[test]
fn fresh_system_sees_events_sent_before_it_was_made() {
    let mut events = Events::<TouchInput>::default();
    events.send(event(TouchPhase::Started, 5, 2.0, 2.0));
    events.send(event(TouchPhase::Started, 6, 3.0, 3.0));

    let mut first = TouchSystemState::default();
    let mut touches = TouchInputState::default();
    assert_eq!(touch_input_system(&mut first, &mut touches, &events), Ok(()));
    assert_eq!(touches.active_touches.len(), 2);

    let mut second = TouchSystemState::default();
    let mut other = TouchInputState::default();
    assert_eq!(touch_input_system(&mut second, &mut other, &events), Ok(()));
    assert_eq!(other.active_touches.len(), 2);
}
