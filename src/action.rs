use vstd::prelude::*;

verus! {

/// Name under which the virtual device registers with the operating system.
pub const DEVICE_NAME: &'static str = "Mobile Trackpad Virtual Mouse";

/// The buttons and keys that the virtual device declares and presses.
#[derive(Clone, Copy, Debug, PartialEq, Eq, Structural)]
pub enum Key {
    ButtonLeft,
    ButtonRight,
    ButtonMiddle,
    ArrowLeft,
    ArrowRight,
    ArrowUp,
    ArrowDown,
    /// The modifier held while a swipe is emulated.
    LeftAlt,
}

/// The relative axes that the virtual device declares.
#[derive(Clone, Copy, Debug, PartialEq, Eq, Structural)]
pub enum Axis {
    X,
    Y,
    Wheel,
    HWheel,
}

/// One action on the virtual device.
#[derive(Clone, Copy, Debug, PartialEq, Eq, Structural)]
pub enum DeviceAction {
    /// Relative pointer motion on both axes.
    Move { dx: i32, dy: i32 },
    /// Vertical wheel steps.
    Wheel(i32),
    /// Horizontal wheel steps.
    HWheel(i32),
    KeyDown(Key),
    KeyUp(Key),
    /// Asks the input subsystem to flush what came before as one update.
    Sync,
}

/// A gesture is a non-empty run of actions whose last action, and only that
/// one, is a sync barrier.
pub open spec fn is_gesture(g: Seq<DeviceAction>) -> bool {
    &&& g.len() > 0
    &&& g.last() == DeviceAction::Sync
    &&& forall|i: int| 0 <= i < g.len() - 1 ==> g[i] != DeviceAction::Sync
}

/// Views a list of gestures as a sequence of action sequences.
pub open spec fn gestures_view(v: Seq<Vec<DeviceAction>>) -> Seq<Seq<DeviceAction>> {
    v.map_values(|g: Vec<DeviceAction>| g@)
}

/// The keys the virtual device is built with.
pub fn device_keys() -> (r: Vec<Key>)
    ensures
        r@ == seq![
            Key::ButtonLeft,
            Key::ButtonRight,
            Key::ButtonMiddle,
            Key::ArrowLeft,
            Key::ArrowRight,
            Key::ArrowUp,
            Key::ArrowDown,
            Key::LeftAlt,
        ],
{
    let r = vec![
        Key::ButtonLeft,
        Key::ButtonRight,
        Key::ButtonMiddle,
        Key::ArrowLeft,
        Key::ArrowRight,
        Key::ArrowUp,
        Key::ArrowDown,
        Key::LeftAlt,
    ];
    r
}

/// The relative axes the virtual device is built with.
pub fn device_axes() -> (r: Vec<Axis>)
    ensures
        r@ == seq![Axis::X, Axis::Y, Axis::Wheel, Axis::HWheel],
{
    let r = vec![Axis::X, Axis::Y, Axis::Wheel, Axis::HWheel];
    r
}

} // verus!
