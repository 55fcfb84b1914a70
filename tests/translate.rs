use trackpad::action::{device_axes, device_keys, Axis, DeviceAction, Key};
use trackpad::event::RemoteEvent;
use trackpad::session::{dispatch, Dispatch};
use trackpad::translate::{click_key, is_word, named_arrow, swipe_arrow, translate};

fn down_up(k: Key) -> Vec<Vec<DeviceAction>> {
    vec![
        vec![DeviceAction::KeyDown(k), DeviceAction::Sync],
        vec![DeviceAction::KeyUp(k), DeviceAction::Sync],
    ]
}

fn click(name: &str) -> Vec<Vec<DeviceAction>> {
    translate(&RemoteEvent::Click { button: name.to_string() })
}

#[test]
fn move_is_one_gesture_with_whole_deltas() {
    let g = translate(&RemoteEvent::Move { dx: 5, dy: -3 });
    assert_eq!(g, vec![vec![DeviceAction::Move { dx: 5, dy: -3 }, DeviceAction::Sync]]);
}

#[test]
fn move_saturates_to_device_range() {
    let g = translate(&RemoteEvent::Move { dx: 3_000_000_000, dy: -3_000_000_000 });
    assert_eq!(g, vec![vec![DeviceAction::Move { dx: i32::MAX, dy: i32::MIN }, DeviceAction::Sync]]);
}

#[test]
fn scroll_in_dead_zone_is_only_a_barrier() {
    let g = translate(&RemoteEvent::Scroll { dx_steps: None, dy_steps: None });
    assert_eq!(g, vec![vec![DeviceAction::Sync]]);
}

#[test]
fn scroll_uses_natural_direction() {
    let g = translate(&RemoteEvent::Scroll { dx_steps: Some(2), dy_steps: Some(-3) });
    assert_eq!(g, vec![vec![DeviceAction::Wheel(-3), DeviceAction::HWheel(-2), DeviceAction::Sync]]);
}

#[test]
fn scroll_single_axis() {
    let g = translate(&RemoteEvent::Scroll { dx_steps: None, dy_steps: Some(4) });
    assert_eq!(g, vec![vec![DeviceAction::Wheel(4), DeviceAction::Sync]]);
    let h = translate(&RemoteEvent::Scroll { dx_steps: Some(-1), dy_steps: None });
    assert_eq!(h, vec![vec![DeviceAction::HWheel(1), DeviceAction::Sync]]);
}

#[test]
fn scroll_negation_saturates() {
    let g = translate(&RemoteEvent::Scroll { dx_steps: Some(i64::MIN), dy_steps: Some(i64::MAX) });
    assert_eq!(g, vec![vec![DeviceAction::Wheel(i32::MAX), DeviceAction::HWheel(i32::MAX), DeviceAction::Sync]]);
    let h = translate(&RemoteEvent::Scroll { dx_steps: Some(1i64 << 40), dy_steps: None });
    assert_eq!(h, vec![vec![DeviceAction::HWheel(i32::MIN), DeviceAction::Sync]]);
}

#[test]
fn clicks_press_then_release() {
    assert_eq!(click("left"), down_up(Key::ButtonLeft));
    assert_eq!(click("right"), down_up(Key::ButtonRight));
    assert_eq!(click("middle"), down_up(Key::ButtonMiddle));
}

#[test]
fn unknown_button_clicks_left() {
    assert_eq!(click("bogus"), click("left"));
    assert_eq!(click(""), down_up(Key::ButtonLeft));
    assert_eq!(click_key(&"Right".to_string()), Key::ButtonLeft);
}

#[test]
fn drag_holds_left_button() {
    assert_eq!(
        translate(&RemoteEvent::DragStart),
        vec![vec![DeviceAction::KeyDown(Key::ButtonLeft), DeviceAction::Sync]]
    );
    assert_eq!(
        translate(&RemoteEvent::DragEnd),
        vec![vec![DeviceAction::KeyUp(Key::ButtonLeft), DeviceAction::Sync]]
    );
}

#[test]
fn swipe_left_wraps_arrow_in_modifier() {
    let g = translate(&RemoteEvent::Swipe { direction: "left".to_string() });
    assert_eq!(
        g,
        vec![
            vec![DeviceAction::KeyDown(Key::LeftAlt), DeviceAction::Sync],
            vec![DeviceAction::KeyDown(Key::ArrowLeft), DeviceAction::Sync],
            vec![DeviceAction::KeyUp(Key::ArrowLeft), DeviceAction::Sync],
            vec![DeviceAction::KeyUp(Key::LeftAlt), DeviceAction::Sync],
        ]
    );
    let r = translate(&RemoteEvent::Swipe { direction: "right".to_string() });
    assert_eq!(r[1], vec![DeviceAction::KeyDown(Key::ArrowRight), DeviceAction::Sync]);
}

#[test]
fn swipe_up_emits_nothing() {
    assert!(translate(&RemoteEvent::Swipe { direction: "up".to_string() }).is_empty());
    assert_eq!(swipe_arrow(&"down".to_string()), None);
}

#[test]
fn arrow_keys_press_then_release() {
    for (name, k) in [("up", Key::ArrowUp), ("down", Key::ArrowDown), ("left", Key::ArrowLeft), ("right", Key::ArrowRight)] {
        assert_eq!(translate(&RemoteEvent::ArrowKey { key: name.to_string() }), down_up(k));
    }
}

#[test]
fn unknown_arrow_emits_nothing() {
    assert!(translate(&RemoteEvent::ArrowKey { key: "home".to_string() }).is_empty());
    assert_eq!(named_arrow(&"UP".to_string()), None);
}

#[test]
fn clipboard_is_not_a_device_event() {
    assert!(translate(&RemoteEvent::Clipboard { content: "x".to_string() }).is_empty());
}

#[test]
fn every_gesture_ends_with_its_only_barrier() {
    let events = vec![
        RemoteEvent::Move { dx: 1, dy: 1 },
        RemoteEvent::Click { button: "middle".to_string() },
        RemoteEvent::Scroll { dx_steps: Some(1), dy_steps: Some(1) },
        RemoteEvent::Swipe { direction: "right".to_string() },
        RemoteEvent::ArrowKey { key: "down".to_string() },
    ];
    for e in &events {
        for g in translate(e) {
            assert_eq!(g.last(), Some(&DeviceAction::Sync));
            assert_eq!(g.iter().filter(|a| **a == DeviceAction::Sync).count(), 1);
        }
    }
}

#[test]
fn word_matching_is_exact() {
    assert!(is_word(&"left".to_string(), "left"));
    assert!(!is_word(&"left ".to_string(), "left"));
    assert!(!is_word(&"Left".to_string(), "left"));
}

#[test]
fn paste_is_published_as_client_item() {
    match dispatch(RemoteEvent::Clipboard { content: "hello".to_string() }, 1700000000) {
        Dispatch::Publish(item) => {
            assert_eq!(item.content, "hello");
            assert_eq!(item.timestamp, 1700000000);
            assert_eq!(item.source, "Client");
        }
        Dispatch::Emit(_) => panic!("a paste must not reach the device"),
    }
}

#[test]
fn device_events_are_emitted() {
    match dispatch(RemoteEvent::Move { dx: 2, dy: 7 }, 0) {
        Dispatch::Emit(g) => assert_eq!(g, vec![vec![DeviceAction::Move { dx: 2, dy: 7 }, DeviceAction::Sync]]),
        Dispatch::Publish(_) => panic!("a move must reach the device"),
    }
    match dispatch(RemoteEvent::Swipe { direction: "up".to_string() }, 0) {
        Dispatch::Emit(g) => assert!(g.is_empty()),
        Dispatch::Publish(_) => panic!("a swipe must not be published"),
    }
}

#[test]
fn device_capabilities() {
    assert_eq!(device_keys().len(), 8);
    assert!(device_keys().contains(&Key::LeftAlt));
    assert_eq!(device_axes(), vec![Axis::X, Axis::Y, Axis::Wheel, Axis::HWheel]);
}
