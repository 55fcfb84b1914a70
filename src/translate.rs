use vstd::prelude::*;

use crate::action::{gestures_view, is_gesture, DeviceAction, Key};
use crate::event::RemoteEvent;

verus! {

/// Saturates a whole-unit delta into the device's 32-bit range.
pub open spec fn clamp_i32(v: int) -> i32 {
    if v < i32::MIN {
        i32::MIN
    } else if v > i32::MAX {
        i32::MAX
    } else {
        v as i32
    }
}

/// The button a click names; any name but "right" or "middle" means the left one.
pub open spec fn button_key(s: Seq<char>) -> Key {
    if s == "right"@ {
        Key::ButtonRight
    } else if s == "middle"@ {
        Key::ButtonMiddle
    } else {
        Key::ButtonLeft
    }
}

/// The arrow a swipe stands for; only "left" and "right" are swipes.
pub open spec fn swipe_key(s: Seq<char>) -> Option<Key> {
    if s == "left"@ {
        Some(Key::ArrowLeft)
    } else if s == "right"@ {
        Some(Key::ArrowRight)
    } else {
        None
    }
}

/// The arrow key an arrow message names, if it names one.
pub open spec fn arrow_key(s: Seq<char>) -> Option<Key> {
    if s == "up"@ {
        Some(Key::ArrowUp)
    } else if s == "down"@ {
        Some(Key::ArrowDown)
    } else if s == "left"@ {
        Some(Key::ArrowLeft)
    } else if s == "right"@ {
        Some(Key::ArrowRight)
    } else {
        None
    }
}

/// A key pressed alone: one gesture that puts it down, one that lifts it.
pub open spec fn press(k: Key) -> Seq<Seq<DeviceAction>> {
    seq![seq![DeviceAction::KeyDown(k), DeviceAction::Sync], seq![DeviceAction::KeyUp(k), DeviceAction::Sync]]
}

/// The single gesture of a scroll: the vertical wheel (natural direction), then the
/// horizontal wheel (inverted), each only where its axis left the dead zone, then
/// the barrier.
pub open spec fn scroll_gesture(dx_steps: Option<i64>, dy_steps: Option<i64>) -> Seq<DeviceAction> {
    let wheel = match dy_steps {
        Some(v) => seq![DeviceAction::Wheel(clamp_i32(v as int))],
        None => Seq::<DeviceAction>::empty(),
    };
    let hwheel = match dx_steps {
        Some(v) => seq![DeviceAction::HWheel(clamp_i32(-(v as int)))],
        None => Seq::<DeviceAction>::empty(),
    };
    wheel + hwheel + seq![DeviceAction::Sync]
}

/// The gestures, in emission order, that a remote event becomes.
pub open spec fn gestures_of(e: RemoteEvent) -> Seq<Seq<DeviceAction>> {
    match e {
        RemoteEvent::Move { dx, dy } => seq![
            seq![DeviceAction::Move { dx: clamp_i32(dx as int), dy: clamp_i32(dy as int) }, DeviceAction::Sync],
        ],
        RemoteEvent::Click { button } => press(button_key(button@)),
        RemoteEvent::Scroll { dx_steps, dy_steps } => seq![scroll_gesture(dx_steps, dy_steps)],
        RemoteEvent::DragStart => seq![seq![DeviceAction::KeyDown(Key::ButtonLeft), DeviceAction::Sync]],
        RemoteEvent::DragEnd => seq![seq![DeviceAction::KeyUp(Key::ButtonLeft), DeviceAction::Sync]],
        RemoteEvent::Swipe { direction } => match swipe_key(direction@) {
            Some(k) => seq![
                seq![DeviceAction::KeyDown(Key::LeftAlt), DeviceAction::Sync],
                seq![DeviceAction::KeyDown(k), DeviceAction::Sync],
                seq![DeviceAction::KeyUp(k), DeviceAction::Sync],
                seq![DeviceAction::KeyUp(Key::LeftAlt), DeviceAction::Sync],
            ],
            None => Seq::empty(),
        },
        RemoteEvent::ArrowKey { key } => match arrow_key(key@) {
            Some(k) => press(k),
            None => Seq::empty(),
        },
        RemoteEvent::Clipboard { .. } => Seq::empty(),
    }
}

fn clamp_to_i32(v: i64) -> (r: i32)
    ensures
        r == clamp_i32(v as int),
{
    if v < i32::MIN as i64 {
        i32::MIN
    } else if v > i32::MAX as i64 {
        i32::MAX
    } else {
        v as i32
    }
}

fn negate_to_i32(v: i64) -> (r: i32)
    ensures
        r == clamp_i32(-(v as int)),
{
    if v <= -(i32::MAX as i64) {
        i32::MAX
    } else if v >= 2147483648i64 {
        i32::MIN
    } else {
        (-v) as i32
    }
}

/// Whether `s` spells exactly the word `w`.
pub fn is_word(s: &String, w: &str) -> (r: bool)
    ensures
        r == (s@ == w@),
{
    let t = String::from_str(w);
    s.eq(&t)
}

/// The button of a click message.
pub fn click_key(button: &String) -> (r: Key)
    ensures
        r == button_key(button@),
{
    if is_word(button, "right") {
        Key::ButtonRight
    } else if is_word(button, "middle") {
        Key::ButtonMiddle
    } else {
        Key::ButtonLeft
    }
}

/// The arrow of a swipe message, or `None` for a direction that is not a swipe.
pub fn swipe_arrow(direction: &String) -> (r: Option<Key>)
    ensures
        r == swipe_key(direction@),
{
    if is_word(direction, "left") {
        Some(Key::ArrowLeft)
    } else if is_word(direction, "right") {
        Some(Key::ArrowRight)
    } else {
        None
    }
}

/// The key of an arrow message, or `None` for a name that is not an arrow.
pub fn named_arrow(key: &String) -> (r: Option<Key>)
    ensures
        r == arrow_key(key@),
{
    if is_word(key, "up") {
        Some(Key::ArrowUp)
    } else if is_word(key, "down") {
        Some(Key::ArrowDown)
    } else if is_word(key, "left") {
        Some(Key::ArrowLeft)
    } else if is_word(key, "right") {
        Some(Key::ArrowRight)
    } else {
        None
    }
}

fn closed(a: DeviceAction) -> (r: Vec<DeviceAction>)
    ensures
        r@ == seq![a, DeviceAction::Sync],
{
    vec![a, DeviceAction::Sync]
}

fn pressed(k: Key) -> (r: Vec<Vec<DeviceAction>>)
    ensures
        gestures_view(r@) == press(k),
{
    let r = vec![closed(DeviceAction::KeyDown(k)), closed(DeviceAction::KeyUp(k))];
    assert(gestures_view(r@) =~= press(k));
    r
}

fn scrolled(dx_steps: Option<i64>, dy_steps: Option<i64>) -> (r: Vec<DeviceAction>)
    ensures
        r@ == scroll_gesture(dx_steps, dy_steps),
{
    let mut r: Vec<DeviceAction> = Vec::new();
    match dy_steps {
        Some(v) => r.push(DeviceAction::Wheel(clamp_to_i32(v))),
        None => {},
    }
    match dx_steps {
        Some(v) => r.push(DeviceAction::HWheel(negate_to_i32(v))),
        None => {},
    }
    r.push(DeviceAction::Sync);
    assert(r@ =~= scroll_gesture(dx_steps, dy_steps));
    r
}

/// Translates one remote event into the gestures to emit, in order. A clipboard
/// message, and a swipe or arrow message with an unknown name, yield none.
pub fn translate(event: &RemoteEvent) -> (r: Vec<Vec<DeviceAction>>)
    ensures
        gestures_view(r@) == gestures_of(*event),
{
    let r = match event {
        RemoteEvent::Move { dx, dy } => {
            let a = DeviceAction::Move { dx: clamp_to_i32(*dx), dy: clamp_to_i32(*dy) };
            vec![closed(a)]
        },
        RemoteEvent::Click { button } => pressed(click_key(button)),
        RemoteEvent::Scroll { dx_steps, dy_steps } => vec![scrolled(*dx_steps, *dy_steps)],
        RemoteEvent::DragStart => vec![closed(DeviceAction::KeyDown(Key::ButtonLeft))],
        RemoteEvent::DragEnd => vec![closed(DeviceAction::KeyUp(Key::ButtonLeft))],
        RemoteEvent::Swipe { direction } => match swipe_arrow(direction) {
            Some(k) => vec![
                closed(DeviceAction::KeyDown(Key::LeftAlt)),
                closed(DeviceAction::KeyDown(k)),
                closed(DeviceAction::KeyUp(k)),
                closed(DeviceAction::KeyUp(Key::LeftAlt)),
            ],
            None => Vec::new(),
        },
        RemoteEvent::ArrowKey { key } => match named_arrow(key) {
            Some(k) => pressed(k),
            None => Vec::new(),
        },
        RemoteEvent::Clipboard { .. } => Vec::new(),
    };
    assert(gestures_view(r@) =~= gestures_of(*event));
    r
}

/// Every gesture that any event becomes is closed: it ends with a sync barrier,
/// and that barrier is its only one.
pub proof fn lemma_gestures_are_closed(e: RemoteEvent)
    ensures
        forall|i: int| 0 <= i < gestures_of(e).len() ==> is_gesture(#[trigger] gestures_of(e)[i]),
{
    match e {
        RemoteEvent::Scroll { dx_steps, dy_steps } => {
            let g = scroll_gesture(dx_steps, dy_steps);
            assert(is_gesture(g));
        },
        _ => {},
    }
}

/// A move becomes exactly one gesture: the motion on both axes, saturated to the
/// device's range, then the barrier. A delta within that range is kept as it is.
pub proof fn lemma_move_is_one_gesture(dx: i64, dy: i64)
    ensures
        gestures_of(RemoteEvent::Move { dx, dy }) == seq![
            seq![DeviceAction::Move { dx: clamp_i32(dx as int), dy: clamp_i32(dy as int) }, DeviceAction::Sync],
        ],
        i32::MIN <= dx <= i32::MAX ==> clamp_i32(dx as int) == dx,
        i32::MIN <= dy <= i32::MAX ==> clamp_i32(dy as int) == dy,
{
}

/// A scroll whose two axes both stayed in the dead zone emits no motion: its one
/// gesture is the barrier alone.
pub proof fn lemma_dead_zone_scroll()
    ensures
        gestures_of(RemoteEvent::Scroll { dx_steps: None, dy_steps: None }) == seq![seq![DeviceAction::Sync]],
{
    assert(scroll_gesture(None, None) =~= seq![DeviceAction::Sync]);
}

/// A click is the named button put down, then lifted, as two gestures in that
/// order; a name other than "left", "right" or "middle" clicks the left button.
pub proof fn lemma_click_pairs(button: String)
    ensures
        gestures_of(RemoteEvent::Click { button }) == press(button_key(button@)),
        button@ == "left"@ ==> button_key(button@) == Key::ButtonLeft,
        button@ == "right"@ ==> button_key(button@) == Key::ButtonRight,
        button@ == "middle"@ ==> button_key(button@) == Key::ButtonMiddle,
        button@ != "right"@ && button@ != "middle"@ ==> gestures_of(RemoteEvent::Click { button })
            == press(Key::ButtonLeft),
        press(button_key(button@))[0][0] == DeviceAction::KeyDown(button_key(button@)),
        press(button_key(button@))[1][0] == DeviceAction::KeyUp(button_key(button@)),
{
    reveal_strlit("left");
    reveal_strlit("right");
    reveal_strlit("middle");
    assert("left"@ != "right"@ && "left"@ != "middle"@ && "middle"@ != "right"@) by {
        assert("left"@[0] != "right"@[0]);
        assert("left"@[0] != "middle"@[0]);
        assert("middle"@[0] != "right"@[0]);
    }
}

/// A swipe in a direction other than left or right emits nothing.
pub proof fn lemma_unknown_swipe_is_silent(direction: String)
    requires
        direction@ != "left"@,
        direction@ != "right"@,
    ensures
        gestures_of(RemoteEvent::Swipe { direction }).len() == 0,
{
}

/// An arrow message naming no arrow key emits nothing.
pub proof fn lemma_unknown_arrow_is_silent(key: String)
    requires
        key@ != "up"@,
        key@ != "down"@,
        key@ != "left"@,
        key@ != "right"@,
    ensures
        gestures_of(RemoteEvent::ArrowKey { key }).len() == 0,
{
}

} // verus!
