use vstd::prelude::*;

use crate::action::{gestures_view, DeviceAction};
use crate::clipboard::{client_item, ClipboardItem, CLIENT_SOURCE};
use crate::event::RemoteEvent;
use crate::translate::{gestures_of, translate};

verus! {

/// Text of the acknowledgment a session sends once connected.
pub const CONNECTED_MESSAGE: &'static str = "Trackpad connected successfully";

/// Where a session sends one decoded event.
#[derive(Debug)]
pub enum Dispatch {
    /// Fan the item out to every session, the sender included.
    Publish(ClipboardItem),
    /// Emit these gestures on the device, in order, with no other gesture between them.
    Emit(Vec<Vec<DeviceAction>>),
}

/// Routes an event received at `now`: a paste goes to the clipboard hub as an
/// item from the client, every other event to the device as its gestures.
pub fn dispatch(event: RemoteEvent, now: u64) -> (r: Dispatch)
    ensures
        match event {
            RemoteEvent::Clipboard { content } => match r {
                Dispatch::Publish(item) => item.content@ == content@ && item.timestamp == now && item.source@
                    == CLIENT_SOURCE@,
                Dispatch::Emit(_) => false,
            },
            _ => match r {
                Dispatch::Emit(g) => gestures_view(g@) == gestures_of(event),
                Dispatch::Publish(_) => false,
            },
        },
{
    match event {
        RemoteEvent::Clipboard { content } => Dispatch::Publish(client_item(content, now)),
        _ => Dispatch::Emit(translate(&event)),
    }
}

} // verus!
