use parchment::geometry::DrawRect;
use parchment::gesture::{
    recognize_drag, recognize_press, recognize_release, recognize_starting_zone, recognize_tap,
    DragRule, Finger, Gesture, GestureRecognizer,
};

fn finger(id: i32, x: u16, y: u16) -> Finger {
    Finger { tracking_id: id, x, y }
}

fn full_display() -> DrawRect {
    DrawRect { left: 0, top: 0, width: 1404, height: 1872 }
}

#[test]
fn tap_scenario_fires_once_at_release() {
    let mut g = GestureRecognizer::new()
        .with_callback(recognize_starting_zone(full_display(), recognize_tap(32, 7u32)));
    let r = g.finger_press(finger(1, 10, 10));
    assert!(r.is_empty());
    let r = g.finger_release(finger(1, 10, 12));
    assert_eq!(r.len(), 1);
    assert_eq!(r[0].finger_id, 1);
    assert_eq!(r[0].action, 7);
    assert_eq!(r[0].gesture, Gesture::Tap { x: 10, y: 12 });
    assert!(!g.is_tracking(1));
}

#[test]
fn drag_scenario_completes_past_threshold_and_retires_finger() {
    let zone = DrawRect { left: 0, top: 872, width: 1404, height: 128 };
    let mut g = GestureRecognizer::new()
        .with_callback(recognize_starting_zone(zone, recognize_drag(DragRule::YAbove(32), 3u32)));
    assert!(g.finger_press(finger(0, 0, 900)).is_empty());
    assert!(g.finger_move(finger(0, 0, 890)).is_empty());
    assert!(g.finger_move(finger(0, 0, 870)).is_empty());
    assert!(g.finger_move(finger(0, 0, 868)).is_empty());
    let r = g.finger_move(finger(0, 0, 860));
    assert_eq!(r.len(), 1);
    assert_eq!(r[0].gesture, Gesture::Drag { dx: 0, dy: 40 });
    assert!(!g.is_tracking(0));
    // The rest of the swipe no longer starts in the zone: nothing more fires.
    assert!(g.finger_move(finger(0, 0, 800)).is_empty());
    assert!(g.finger_move(finger(0, 0, 700)).is_empty());
    assert!(g.finger_release(finger(0, 0, 700)).is_empty());
    assert!(!g.is_tracking(0));
}

#[test]
fn one_finger_fires_at_most_once_and_is_forgotten() {
    let mut g = GestureRecognizer::new()
        .with_callback(recognize_drag(DragRule::XAbove(5), 1u32))
        .with_callback(recognize_release(2u32));
    let mut fired = 0;
    fired += g.finger_press(finger(4, 100, 100)).len();
    fired += g.finger_move(finger(4, 98, 100)).len();
    assert!(g.is_tracking(4));
    fired += g.finger_move(finger(4, 90, 100)).len();
    assert_eq!(fired, 1);
    assert!(!g.is_tracking(4));
    let mut g2 = GestureRecognizer::new().with_callback(recognize_tap(32, 1u32));
    g2.finger_press(finger(5, 0, 0));
    g2.finger_move(finger(5, 100, 0));
    let r = g2.finger_release(finger(5, 100, 0));
    assert!(r.is_empty());
    assert!(!g2.is_tracking(5));
}

#[test]
fn tap_at_exactly_hysteresis_does_not_match() {
    let mut g = GestureRecognizer::new().with_callback(recognize_tap(32, 1u32));
    g.finger_press(finger(1, 0, 0));
    assert!(g.finger_release(finger(1, 32, 0)).is_empty());
    g.finger_press(finger(1, 0, 0));
    assert_eq!(g.finger_release(finger(1, 31, 0)).len(), 1);
    g.finger_press(finger(2, 0, 0));
    assert!(g.finger_release(finger(2, 20, 30)).is_empty());
}

#[test]
fn zone_gate_judges_the_first_sample_only() {
    let zone = DrawRect { left: 0, top: 0, width: 10, height: 10 };
    let mut g =
        GestureRecognizer::new().with_callback(recognize_starting_zone(zone, recognize_tap(32, 1u32)));
    g.finger_press(finger(1, 12, 5));
    assert!(g.finger_release(finger(1, 5, 5)).is_empty());
    g.finger_press(finger(1, 5, 5));
    assert_eq!(g.finger_release(finger(1, 12, 5)).len(), 1);
    g.finger_press(finger(1, 10, 5));
    assert!(g.finger_release(finger(1, 9, 5)).is_empty());
}

#[test]
fn front_recognizer_wins_and_reversal_flips() {
    let g = GestureRecognizer::new()
        .with_callback(recognize_press(1u32))
        .with_callback(recognize_press(2u32));
    let mut front = g;
    let r = front.finger_press(finger(3, 1, 1));
    assert_eq!(r.len(), 1);
    assert_eq!(r[0].action, 1);
    let mut back = GestureRecognizer::new()
        .with_callback(recognize_press(1u32))
        .with_callback(recognize_press(2u32))
        .reverse_callback_priority();
    let r = back.finger_press(finger(3, 1, 1));
    assert_eq!(r[0].action, 2);
}

#[test]
fn fingers_are_evaluated_in_ascending_id_order() {
    let mut g = GestureRecognizer::new().with_callback(recognize_drag(DragRule::YBelow(-10), 9u32));
    g.finger_press(finger(8, 0, 0));
    g.finger_press(finger(2, 0, 0));
    g.finger_move(finger(8, 0, 20));
    // Finger 8 already fired; finger 2 fires on its own move.
    let r = g.finger_move(finger(2, 0, 50));
    assert_eq!(r.len(), 1);
    assert_eq!(r[0].finger_id, 2);
    assert_eq!(r[0].gesture, Gesture::Drag { dx: 0, dy: -50 });
}

#[test]
fn merged_recognizers_keep_order() {
    let a = GestureRecognizer::new().with_callback(recognize_press(1u32));
    let b = GestureRecognizer::new().with_callback(recognize_press(2u32));
    let mut g = a.with_recognizer(b);
    assert_eq!(g.finger_press(finger(0, 0, 0))[0].action, 1);
}

#[test]
fn retired_finger_cannot_fire_again() {
    let mut g = GestureRecognizer::new()
        .with_callback(recognize_drag(DragRule::XAbove(-1), 1u32))
        .with_callback(recognize_release(2u32));
    assert_eq!(g.finger_press(finger(3, 50, 50)).len(), 1);
    assert!(!g.is_tracking(3));
    assert!(g.finger_move(finger(3, 60, 50)).is_empty());
    assert!(!g.is_tracking(3));
    assert!(g.finger_release(finger(3, 60, 50)).is_empty());
    assert!(g.finger_release(finger(9, 1, 1)).is_empty());
    assert!(!g.is_tracking(9));
}
