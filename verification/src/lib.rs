//! Device-presence supervisor core.
//!
//! Watches for the hotplug arrival of one configured input device and, on
//! arrival, ensures a single instance of an external launcher program is
//! running; once that program exits, a paired wireless peripheral is
//! disconnected before the system returns to its idle state.
//!
//! This crate holds the verified decision core: the configuration record and
//! its validation, the decoded device-presence events, and the supervisor
//! state machine that orders the launch / wait / disconnect cycle. The
//! process that embeds it performs the actual subscription, spawning and
//! command invocation, feeding the observed outcomes back into the machine.

pub mod config;
pub mod event;
pub mod laws;
pub mod supervisor;
pub mod trace;

use vstd::prelude::*;

verus! {

} // verus!
