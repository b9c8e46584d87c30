//! The immutable configuration record.
//!
//! Loaded once at startup by the embedding process, validated before the
//! event loop is entered, and lent by reference to the supervisor for the
//! lifetime of the process.

use vstd::prelude::*;

verus! {

/// The validated configuration record: the device node path to watch, the
/// launcher command to supervise, an optional verbatim launcher argument
/// ("lounge" mode), and the address of the peripheral to disconnect after
/// each cycle.
pub struct Config {
    pub dev_block: String,
    pub launcher: String,
    pub lounge: Option<String>,
    pub mac: String,
}

impl Config {
    /// Assembles a configuration record from its four fields. Validity
    /// (non-emptiness of the required fields) is checked separately by
    /// [`Config::validate`] before the event loop starts.
    pub fn new(dev_block: String, launcher: String, lounge: Option<String>, mac: String) -> (c:
        Config)
        ensures
            c.dev_block == dev_block,
            c.launcher == launcher,
            c.lounge == lounge,
            c.mac == mac,
    {
        Config { dev_block, launcher, lounge, mac }
    }

    /// The device node path whose hotplug arrival triggers a launch cycle.
    pub fn get_device(&self) -> (r: &str)
        ensures
            r@ == self.dev_block@,
    {
        self.dev_block.as_str()
    }

    /// The launcher command: the program started on device arrival.
    pub fn get_launcher(&self) -> (r: &str)
        ensures
            r@ == self.launcher@,
    {
        self.launcher.as_str()
    }

    /// The peripheral address handed to the disconnect command.
    pub fn get_mac(&self) -> (r: &str)
        ensures
            r@ == self.mac@,
    {
        self.mac.as_str()
    }

    /// The optional launcher argument, passed verbatim when present.
    pub fn get_lounge(&self) -> (r: Option<&str>)
        ensures
            match self.lounge {
                Some(ref s) => r matches Some(v) && v@ == s@,
                None => r is None,
            },
    {
        match &self.lounge {
            Some(s) => Some(s.as_str()),
            None => None,
        }
    }

    /// Whether every required field is present and non-empty.
    ///
    /// A configuration that fails this check is a fatal startup error: the
    /// embedding process must terminate before any subscription is
    /// established, and the event loop is never entered.
    pub fn validate(&self) -> (r: bool)
        ensures
            r == self.valid(),
    {
        if self.dev_block.as_str().is_empty() {
            return false;
        }
        if self.mac.as_str().is_empty() {
            return false;
        }
        if self.launcher.as_str().is_empty() {
            return false;
        }
        true
    }

    /// All three required fields are non-empty; the launcher argument alone
    /// may be absent.
    pub open spec fn valid(&self) -> bool {
        &&& self.dev_block@.len() > 0
        &&& self.launcher@.len() > 0
        &&& self.mac@.len() > 0
    }
}

} // verus!
