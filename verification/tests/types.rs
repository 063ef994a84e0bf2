use std::collections::HashSet;
use touch_input::{ActiveTouch, OrphanMoveEvent, TouchInput, TouchPhase};

#[test]
fn phases_are_four_distinct_values() {
    let phases = [
        TouchPhase::Started,
        TouchPhase::Moved,
        TouchPhase::Ended,
        TouchPhase::Cancelled,
    ];
    let distinct: HashSet<TouchPhase> = phases.iter().copied().collect();
    assert_eq!(distinct.len(), 4);
    assert_eq!(TouchPhase::Started, TouchPhase::Started);
    assert_ne!(TouchPhase::Ended, TouchPhase::Cancelled);
}

#[test]
fn phase_prints_its_name() {
    assert_eq!(format!("{:?}", TouchPhase::Started), "Started");
    assert_eq!(format!("{:?}", TouchPhase::Moved), "Moved");
    assert_eq!(format!("{:?}", TouchPhase::Ended), "Ended");
    assert_eq!(format!("{:?}", TouchPhase::Cancelled), "Cancelled");
}

#[test]
fn touch_input_clone_keeps_every_field() {
    let event = TouchInput {
        phase: TouchPhase::Moved,
        x: 1.5f64.to_bits(),
        y: 2.5f64.to_bits(),
        id: 9,
    };
    let copy = event.clone();
    assert_eq!(copy.phase, TouchPhase::Moved);
    assert_eq!(f64::from_bits(copy.x), 1.5);
    assert_eq!(f64::from_bits(copy.y), 2.5);
    assert_eq!(copy.id, 9);
}

#[test]
fn active_touch_clone_keeps_every_field() {
    let touch = ActiveTouch { id: 3, start_x: 1, start_y: 2, cur_x: 3, cur_y: 4 };
    let copy = touch.clone();
    assert_eq!((copy.id, copy.start_x, copy.start_y, copy.cur_x, copy.cur_y), (3, 1, 2, 3, 4));
}

#[test]
fn orphan_error_names_the_finger() {
    let error = OrphanMoveEvent { id: 99 };
    assert_eq!(error.id, 99);
    assert_eq!(error, OrphanMoveEvent { id: 99 });
    assert_ne!(error, OrphanMoveEvent { id: 98 });
    assert!(format!("{:?}", error).contains("99"));
}
