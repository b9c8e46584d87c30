//! Device-presence events.
//!
//! The kernel surfaces hotplug notifications for the input subsystem as an
//! action word ("add", "remove", or something else) together with an
//! optional device node path. [`decode_event`] turns that raw pair into a
//! tagged [`DeviceEvent`]; no filtering happens here — every notification of
//! the subscribed subsystem is decoded, and matching against the configured
//! device path is the event loop's responsibility.

use vstd::prelude::*;

verus! {

/// One device-presence notification, already decoded. Ephemeral: consumed
/// synchronously by the event loop and never stored.
#[derive(Debug, PartialEq, Eq)]
pub enum DeviceEvent {
    /// A device node appeared at the given path.
    Added(String),
    /// A device node disappeared from the given path.
    Removed(String),
    /// Any other notification of the subscribed subsystem, including ones
    /// that carry no device node.
    Other,
}

/// Whether `ev` is the arrival of the device at path `dev`: the one kind of
/// event that triggers a launch cycle.
pub open spec fn is_matching_added(ev: DeviceEvent, dev: Seq<char>) -> bool {
    match ev {
        DeviceEvent::Added(p) => p@ == dev,
        _ => false,
    }
}

/// Whether `ev` is the departure of the device at path `dev`: observed by
/// the event loop, by design without any action.
pub open spec fn is_matching_removed(ev: DeviceEvent, dev: Seq<char>) -> bool {
    match ev {
        DeviceEvent::Removed(p) => p@ == dev,
        _ => false,
    }
}

/// Decodes one raw kernel notification into a [`DeviceEvent`].
///
/// An `"add"` action with a device node decodes to [`DeviceEvent::Added`],
/// a `"remove"` action with a device node to [`DeviceEvent::Removed`];
/// everything else — another action word, or a notification without a device
/// node — decodes to [`DeviceEvent::Other`].
pub fn decode_event(action: &str, node: Option<String>) -> (ev: DeviceEvent)
    ensures
        ev == decoded(action@, node),
{
    let owned: String = action.to_owned();
    match node {
        Some(n) => {
            if owned == "add".to_owned() {
                DeviceEvent::Added(n)
            } else if owned == "remove".to_owned() {
                DeviceEvent::Removed(n)
            } else {
                DeviceEvent::Other
            }
        },
        None => DeviceEvent::Other,
    }
}

/// What [`decode_event`] returns for a given action word and device node.
pub open spec fn decoded(action: Seq<char>, node: Option<String>) -> DeviceEvent {
    match node {
        Some(n) => if action == "add"@ {
            DeviceEvent::Added(n)
        } else if action == "remove"@ {
            DeviceEvent::Removed(n)
        } else {
            DeviceEvent::Other
        },
        None => DeviceEvent::Other,
    }
}

} // verus!
