//! The power-off 180 attitude controller plugin: which aircraft it serves and
//! the switches its lifecycle sets on the controller.
use vstd::prelude::*;
use crate::text::{
    backslashes_to_slashes, chars_backslashes_to_slashes, chars_end_with, chars_of, ends_with,
    string_from_chars, to_lowercase, unicode_lowercase,
};

verus! {

/// Whether a lower-cased aircraft path with forward slashes names one of the
/// SR20 models the controller serves.
pub open spec fn spec_sr20_lowered(lowered: Seq<char>) -> bool {
    ends_with(lowered, "sr20_g6_custom_fm.acf"@) || ends_with(lowered, "torquesim sr20/sr20.acf"@)
}

/// Whether the aircraft at `path` is one the controller serves: its path,
/// with forward slashes and in lower case, ends with one of the SR20 models.
pub open spec fn spec_sr20_matches(path: Seq<char>) -> bool {
    spec_sr20_lowered(unicode_lowercase(backslashes_to_slashes(path)))
}

/// Whether a lower-cased aircraft path with forward slashes names one of the
/// SR20 models the controller serves.
pub fn sr20_lowered(lowered: &str) -> (r: bool)
    ensures
        r == spec_sr20_lowered(lowered@),
{
    let path = chars_of(lowered);
    let custom = chars_of("sr20_g6_custom_fm.acf");
    let torquesim = chars_of("torquesim sr20/sr20.acf");
    chars_end_with(&path, &custom) || chars_end_with(&path, &torquesim)
}

/// Whether the aircraft at `path` is one the controller serves.
pub fn sr20_matches(path: &str) -> (r: bool)
    ensures
        r == spec_sr20_matches(path@),
{
    let chars = chars_of(path);
    let slashed = chars_backslashes_to_slashes(&chars);
    let text = string_from_chars(&slashed);
    let lowered = to_lowercase(text.as_str());
    sr20_lowered(lowered.as_str())
}

/// The controller's integer switches that the plugin lifecycle sets.
#[derive(Clone, Copy, Debug, PartialEq, Eq, Structural)]
pub struct AttitudeSwitches {
    /// The plugin is enabled (controller integer 2).
    pub enabled: i32,
    /// The loaded aircraft is served (controller integer 3).
    pub aircraft_match: i32,
    /// The controller is armed (controller integer 4).
    pub armed: i32,
}

/// The switches after checking the loaded aircraft: matched or not, and
/// disarmed unless matched.
pub open spec fn after_refresh_match(s: AttitudeSwitches, aircraft: Option<Seq<char>>) -> AttitudeSwitches {
    let matched = match aircraft {
        Some(path) => spec_sr20_matches(path),
        None => false,
    };
    AttitudeSwitches {
        aircraft_match: if matched { 1 } else { 0 },
        armed: if matched { s.armed } else { 0 },
        ..s
    }
}

impl AttitudeSwitches {
    /// Checks the loaded aircraft (`None` when X-Plane has none).
    pub fn refresh_match(&mut self, aircraft: Option<&str>)
        ensures
            *final(self) == after_refresh_match(*old(self), match aircraft {
                Some(p) => Some(p@),
                None => None,
            }),
    {
        let matched = match aircraft {
            Some(path) => sr20_matches(path),
            None => false,
        };
        self.aircraft_match = if matched { 1 } else { 0 };
        if !matched {
            self.armed = 0;
        }
    }
}

/// Installs the controller created at start-up; whether the plugin started.
pub fn start(slot: &mut Option<AttitudeSwitches>, created: Result<AttitudeSwitches, String>) -> (r: bool)
    ensures
        r == created is Ok,
        created matches Ok(s) ==> *final(slot) == Some(s),
        created is Err ==> *final(slot) == *old(slot),
{
    match created {
        Ok(state) => {
            *slot = Some(state);
            true
        },
        Err(_) => false,
    }
}

/// X-Plane enables the plugin: the controller, if started, is marked enabled
/// and checks the loaded aircraft. The plugin always accepts.
pub fn enable(slot: &mut Option<AttitudeSwitches>, aircraft: Option<&str>) -> (r: bool)
    ensures
        r,
        match *old(slot) {
            Some(s) => *final(slot) == Some(after_refresh_match(
                AttitudeSwitches { enabled: 1, ..s },
                match aircraft {
                    Some(p) => Some(p@),
                    None => None,
                },
            )),
            None => *final(slot) is None,
        },
{
    match slot {
        Some(state) => {
            state.enabled = 1;
            state.refresh_match(aircraft);
        },
        None => {},
    }
    true
}

/// X-Plane disables the plugin: the controller, if started, is marked
/// disabled and disarmed; whether there was a controller, which the caller
/// then releases.
pub fn disable(slot: &mut Option<AttitudeSwitches>) -> (r: bool)
    ensures
        r == (*old(slot) is Some),
        match *old(slot) {
            Some(s) => *final(slot) == Some(AttitudeSwitches { enabled: 0, armed: 0, ..s }),
            None => *final(slot) is None,
        },
{
    match slot {
        Some(state) => {
            state.enabled = 0;
            state.armed = 0;
            true
        },
        None => false,
    }
}

/// X-Plane stops the plugin: the controller is disabled, then dropped; the
/// switches it had once disabled, for the caller to release and publish.
pub fn stop(slot: &mut Option<AttitudeSwitches>) -> (r: Option<AttitudeSwitches>)
    ensures
        *final(slot) is None,
        match *old(slot) {
            Some(s) => r == Some(AttitudeSwitches { enabled: 0, armed: 0, ..s }),
            None => r is None,
        },
{
    disable(slot);
    slot.take()
}

} // verus!
